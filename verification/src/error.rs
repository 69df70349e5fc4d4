//! Error codes and error objects of JSON-RPC responses.

use vstd::prelude::*;

use crate::json::{
    clone_in, close, drop_null, into_i32, into_text, new_object, number_from_i32, open, put_i32,
    put_some, put_text, remove_member, Json, ObjectText,
};
use serde_json::Value;

verus! {

use crate::json::{
    as_i32, as_text, doc_text, integer, json, json_in, lemma_push_member, lemma_stands_for, member,
    members_json, members_text, name_text, no_members, non_null, stands_for, value_text,
    with_doc_member, with_member, DocMember, DocView, JsonView, NumberView,
};

/// LSP and JSON-RPC 2.0 error codes.
///
/// - `-32700` to `-32600`: errors that JSON-RPC 2.0 defines
/// - `-32099` to `-32000`: reserved by JSON-RPC for server errors
/// - `-32899` to `-32800`: reserved for LSP
///
/// `i32::from` gives the number of a code. A cast with `as` does not: it counts the variants.
#[derive(Debug, Clone, Copy, PartialEq, Eq, Structural)]
#[non_exhaustive]
pub enum ErrorCode {
    /// Invalid JSON was received by the server.
    ParseError,
    /// The JSON sent is not a valid Request object.
    InvalidRequest,
    /// The method does not exist / is not available.
    MethodNotFound,
    /// Invalid method parameter(s).
    InvalidParams,
    /// Internal JSON-RPC error.
    InternalError,
    /// The server has not been initialized.
    ServerNotInitialized,
    /// Unknown error code (used for unmapped errors).
    UnknownErrorCode,
    /// A request failed but it was syntactically correct.
    RequestFailed,
    /// The server cancelled the request.
    ServerCancelled,
    /// The server detected that the content of a document got modified outside normal conditions.
    ContentModified,
    /// The client has canceled a request and a server has detected the cancel.
    RequestCancelled,
}

impl ErrorCode {
    /// The number that stands for this code in a message.
    pub open spec fn number(self) -> i32 {
        match self {
            ErrorCode::ParseError => -32700i32,
            ErrorCode::InvalidRequest => -32600i32,
            ErrorCode::MethodNotFound => -32601i32,
            ErrorCode::InvalidParams => -32602i32,
            ErrorCode::InternalError => -32603i32,
            ErrorCode::ServerNotInitialized => -32002i32,
            ErrorCode::UnknownErrorCode => -32001i32,
            ErrorCode::RequestFailed => -32803i32,
            ErrorCode::ServerCancelled => -32802i32,
            ErrorCode::ContentModified => -32801i32,
            ErrorCode::RequestCancelled => -32800i32,
        }
    }

    /// The code whose number is `code`, if there is one.
    pub open spec fn of_number(code: i32) -> Option<ErrorCode> {
        if exists|c: ErrorCode| #[trigger] c.number() == code {
            Some(choose|c: ErrorCode| #[trigger] c.number() == code)
        } else {
            None
        }
    }
}

/// No two codes have the same number.
pub proof fn error_code_numbers_differ(a: ErrorCode, b: ErrorCode)
    requires
        a.number() == b.number(),
    ensures
        a == b,
{
}

/// Converting a code to its number and back gives the code.
pub proof fn error_code_round_trip(code: ErrorCode)
    ensures
        ErrorCode::of_number(code.number()) == Some(code),
{
    let other = choose|c: ErrorCode| #[trigger] c.number() == code.number();
    assert(other.number() == code.number());
}

/// A number that converts to a code is the number of that code.
pub proof fn error_code_number_round_trip(code: i32)
    ensures
        ErrorCode::of_number(code) matches Some(c) ==> c.number() == code,
{
}

impl vstd::std_specs::convert::FromSpecImpl<ErrorCode> for i32 {
    open spec fn obeys_from_spec() -> bool {
        true
    }

    open spec fn from_spec(code: ErrorCode) -> i32 {
        code.number()
    }
}

impl From<ErrorCode> for i32 {
    fn from(code: ErrorCode) -> (r: Self) {
        match code {
            ErrorCode::ParseError => -32700,
            ErrorCode::InvalidRequest => -32600,
            ErrorCode::MethodNotFound => -32601,
            ErrorCode::InvalidParams => -32602,
            ErrorCode::InternalError => -32603,
            ErrorCode::ServerNotInitialized => -32002,
            ErrorCode::UnknownErrorCode => -32001,
            ErrorCode::RequestFailed => -32803,
            ErrorCode::ServerCancelled => -32802,
            ErrorCode::ContentModified => -32801,
            ErrorCode::RequestCancelled => -32800,
        }
    }
}

impl vstd::std_specs::convert::TryFromSpecImpl<i32> for ErrorCode {
    open spec fn obeys_try_from_spec() -> bool {
        true
    }

    open spec fn try_from_spec(code: i32) -> Result<Self, i32> {
        match ErrorCode::of_number(code) {
            Some(c) => Ok(c),
            None => Err(code),
        }
    }
}

impl TryFrom<i32> for ErrorCode {
    type Error = i32;

    /// Attempts to convert an `i32` to an `ErrorCode`.
    ///
    /// Returns `Err(code)` if the code is not a known error code.
    fn try_from(code: i32) -> (r: Result<Self, i32>) {
        let found = match code {
            -32700 => ErrorCode::ParseError,
            -32600 => ErrorCode::InvalidRequest,
            -32601 => ErrorCode::MethodNotFound,
            -32602 => ErrorCode::InvalidParams,
            -32603 => ErrorCode::InternalError,
            -32002 => ErrorCode::ServerNotInitialized,
            -32001 => ErrorCode::UnknownErrorCode,
            -32803 => ErrorCode::RequestFailed,
            -32802 => ErrorCode::ServerCancelled,
            -32801 => ErrorCode::ContentModified,
            -32800 => ErrorCode::RequestCancelled,
            _ => return Err(code),
        };
        proof {
            error_code_round_trip(found);
        }
        Ok(found)
    }
}

/// An error object of a response.
///
/// The `code` is kept as an `i32`, so that codes which [`ErrorCode`] does not know can be carried.
#[derive(Debug)]
pub struct ResponseError {
    /// A number indicating the error type.
    pub code: i32,
    /// A string providing a short description of the error.
    pub message: String,
    /// A primitive or structured value with additional information.
    /// This may be omitted.
    pub data: Option<Value>,
}

/// The mathematical value of a [`ResponseError`].
pub struct ErrorView {
    /// The error code.
    pub code: i32,
    /// The characters of the message.
    pub message: Seq<char>,
    /// The additional data.
    pub data: Option<JsonView>,
}

impl View for ResponseError {
    type V = ErrorView;

    open spec fn view(&self) -> ErrorView {
        ErrorView { code: self.code, message: self.message@, data: json_in(self.data) }
    }
}

impl Clone for ResponseError {
    fn clone(&self) -> (r: Self)
        ensures
            r@ == self@,
    {
        Self { code: self.code, message: self.message.clone(), data: clone_in(&self.data) }
    }
}

impl ErrorView {
    /// The JSON object that stands for this error. There is no `data` member without data.
    pub open spec fn to_json(self) -> JsonView {
        JsonView::Object(
            with_member(
                no_members().insert("code"@, integer(self.code)).insert(
                    "message"@,
                    JsonView::String(self.message),
                ),
                "data"@,
                self.data,
            ),
        )
    }

    /// The document that this error is written as.
    pub open spec fn doc(self) -> DocView {
        DocView::Object(
            with_doc_member(
                Seq::empty().push(
                    DocMember { key: "code"@, value: DocView::Value(integer(self.code)) },
                ).push(
                    DocMember {
                        key: "message"@,
                        value: DocView::Value(JsonView::String(self.message)),
                    },
                ),
                "data"@,
                self.data,
            ),
        )
    }

    /// The error that a JSON value stands for: an object with an integer `code` of 32 bits and a
    /// string `message`. A `null` under `data` is no data; other members are ignored.
    pub open spec fn of_json(v: JsonView) -> Option<ErrorView> {
        match v {
            JsonView::Object(o) => match (
                as_i32(member(o, "code"@)),
                as_text(member(o, "message"@)),
            ) {
                (Some(code), Some(message)) => Some(
                    ErrorView { code, message, data: non_null(member(o, "data"@)) },
                ),
                _ => None,
            },
            _ => None,
        }
    }

    /// This error, with `null` data left out.
    pub open spec fn normal(self) -> ErrorView {
        ErrorView { data: non_null(self.data), ..self }
    }
}

/// The document of an error stands for its JSON object, and is exact where that is.
pub proof fn error_doc_stands_for_json(e: ErrorView)
    ensures
        stands_for(e.doc(), e.to_json()),
{
    lemma_error_keys();
    reveal_strlit("code");
    reveal_strlit("message");
    reveal_strlit("data");
    let none = Seq::<DocMember>::empty();
    let code = DocMember { key: "code"@, value: DocView::Value(integer(e.code)) };
    let message = DocMember {
        key: "message"@,
        value: DocView::Value(JsonView::String(e.message)),
    };
    let head = none.push(code).push(message);
    lemma_push_member(none, code);
    lemma_push_member(none.push(code), message);
    if e.data is Some {
        lemma_push_member(
            head,
            DocMember { key: "data"@, value: DocView::Value(e.data->0) },
        );
    }
    let o = e.to_json()->Object_0;
    assert(members_json(e.doc()->Object_0) =~= o);
    lemma_stands_for(e.doc()->Object_0, o);
}

/// Reading the JSON object of an error gives the error back, but for data that is `null`, which
/// reads as no data.
pub proof fn error_json_round_trip(e: ErrorView)
    ensures
        ErrorView::of_json(e.to_json()) == Some(e.normal()),
{
    lemma_error_keys();
}

/// The numbers of the codes are those that JSON-RPC and LSP give them.
pub proof fn error_codes_have_these_numbers(code: ErrorCode)
    ensures
        code.number() == (match code {
            ErrorCode::ParseError => -32700int,
            ErrorCode::InvalidRequest => -32600int,
            ErrorCode::MethodNotFound => -32601int,
            ErrorCode::InvalidParams => -32602int,
            ErrorCode::InternalError => -32603int,
            ErrorCode::ServerNotInitialized => -32002int,
            ErrorCode::UnknownErrorCode => -32001int,
            ErrorCode::RequestFailed => -32803int,
            ErrorCode::ServerCancelled => -32802int,
            ErrorCode::ContentModified => -32801int,
            ErrorCode::RequestCancelled => -32800int,
        }),
{
}

/// A number that no code has converts to none.
pub proof fn other_numbers_are_no_code(code: i32)
    requires
        forall|c: ErrorCode| #[trigger] c.number() != code,
    ensures
        ErrorCode::of_number(code) is None,
{
}

/// The value of an error holds what the error holds.
pub proof fn error_view_holds_its_fields(e: ResponseError)
    ensures
        e@.code == e.code,
        e@.message == e.message@,
        e.data matches Some(v) ==> e@.data == Some(json(v)),
        e.data is None ==> e@.data is None,
{
}

/// The object that stands for an error has the error's code under `code`, its message under
/// `message` and its data, if there is any, under `data`, and nothing else.
pub proof fn error_object_holds_the_error(e: ErrorView)
    ensures
        e.to_json() matches JsonView::Object(o) && {
            &&& forall|k: Seq<char>| #[trigger]
                o.contains_key(k) <==> k == "code"@ || k == "message"@ || (k == "data"@
                    && e.data is Some)
            &&& o["code"@] == JsonView::Number(NumberView::Integer(e.code as int))
            &&& o["message"@] == JsonView::String(e.message)
            &&& e.data matches Some(v) ==> o["data"@] == v
        },
{
    lemma_error_keys();
}

/// An object with an integer of 32 bits under `code` and a string under `message` is read as the
/// error with this code and this message, and with what stands under `data`, if that is there and
/// not `null`.
pub proof fn error_is_read_from_its_members(
    o: Map<Seq<char>, JsonView>,
    code: i32,
    message: Seq<char>,
)
    requires
        o.contains_key("code"@),
        o["code"@] == JsonView::Number(NumberView::Integer(code as int)),
        o.contains_key("message"@),
        o["message"@] == JsonView::String(message),
    ensures
        ErrorView::of_json(JsonView::Object(o)) matches Some(e) && {
            &&& e.code == code
            &&& e.message == message
            &&& o.contains_key("data"@) && o["data"@] != JsonView::Null ==> e.data == Some(
                o["data"@],
            )
            &&& !o.contains_key("data"@) || o["data"@] == JsonView::Null ==> e.data is None
        },
{
}

/// What is no object, has no integer of 32 bits under `code` or no string under `message`, is no
/// error.
pub proof fn other_values_are_no_error(v: JsonView)
    requires
        v matches JsonView::Object(o) ==> {
            ||| !o.contains_key("code"@)
            ||| !o.contains_key("message"@)
            ||| !(o["message"@] is String)
            ||| !(o["code"@] matches JsonView::Number(NumberView::Integer(n)) && -0x8000_0000 <= n
                <= 0x7fff_ffff)
        },
    ensures
        ErrorView::of_json(v) is None,
{
}

/// The text of an error has its members in the order `code`, `message`, `data`.
pub proof fn error_is_written_in_order(e: ErrorView)
    ensures
        doc_text(e.doc()) == seq![123u8] + name_text("code"@) + value_text(
            JsonView::Number(NumberView::Integer(e.code as int)),
        ) + seq![44u8] + name_text("message"@) + value_text(JsonView::String(e.message)) + (
        match e.data {
            Some(v) => seq![44u8] + name_text("data"@) + value_text(v),
            None => Seq::empty(),
        }) + seq![125u8],
{
    let none = Seq::<DocMember>::empty();
    let ms = e.doc()->Object_0;
    lemma_push_member(none, ms[0]);
    lemma_push_member(none.push(ms[0]), ms[1]);
    if e.data is Some {
        lemma_push_member(none.push(ms[0]).push(ms[1]), ms[2]);
        assert(ms =~= none.push(ms[0]).push(ms[1]).push(ms[2]));
    } else {
        assert(ms =~= none.push(ms[0]).push(ms[1]));
    }
    assert(doc_text(e.doc()) =~= seq![123u8] + members_text(ms) + seq![125u8]);
}

impl ResponseError {
    /// Creates a new `ResponseError` with the given error code and message.
    ///
    /// The `data` field is set to `None`.
    pub fn new(code: ErrorCode, message: impl Into<String>) -> (r: Self)
        ensures
            r.code == code.number(),
            call_ensures(<_ as Into<String>>::into, (message,), r.message),
            r.data is None,
    {
        Self { code: i32::from(code), message: message.into(), data: None }
    }

    /// Creates a new `ResponseError` from a raw error code and message.
    ///
    /// Use this when dealing with unknown or custom error codes.
    pub fn new_raw(code: i32, message: impl Into<String>) -> (r: Self)
        ensures
            r.code == code,
            call_ensures(<_ as Into<String>>::into, (message,), r.message),
            r.data is None,
    {
        Self { code, message: message.into(), data: None }
    }

    /// Adds additional data to this error.
    ///
    /// Consumes self and returns a new `ResponseError` with the data attached.
    #[must_use]
    pub fn with_data(self, data: Value) -> (r: Self)
        ensures
            r == (ResponseError { data: Some(data), ..self }),
    {
        let mut error = self;
        error.data = Some(data);
        error
    }

    /// Returns the error code as an `ErrorCode` enum, if it maps to a known code.
    #[must_use]
    pub fn error_code(&self) -> (r: Option<ErrorCode>)
        ensures
            r == ErrorCode::of_number(self.code),
    {
        match ErrorCode::try_from(self.code) {
            Ok(code) => Some(code),
            Err(_) => None,
        }
    }

    /// Turns this error into the JSON object that stands for it.
    pub fn into_value(self) -> (r: Value)
        ensures
            json(r) == self@.to_json(),
    {
        let mut o = new_object();
        put_i32(&mut o, "code", self.code);
        put_text(&mut o, "message", self.message);
        put_some(&mut o, "data", self.data);
        close(Json::Object(o))
    }

    /// Writes this error as a JSON text, with its members in the order `code`, `message`, `data`.
    ///
    /// # Errors
    ///
    /// The error of the writer. Errors can always be written.
    pub fn to_text(&self) -> (r: Result<Vec<u8>, serde_json::Error>)
        ensures
            r is Ok,
            r->Ok_0@ == doc_text(self@.doc()),
    {
        let mut o = ObjectText::new();
        let code = close(Json::Number(number_from_i32(self.code)));
        match o.put_value("code", &code) {
            Ok(()) => {},
            Err(e) => return Err(e),
        }
        match o.put_string("message", self.message.clone()) {
            Ok(()) => {},
            Err(e) => return Err(e),
        }
        match o.put_optional("data", &self.data) {
            Ok(()) => {},
            Err(e) => return Err(e),
        }
        Ok(o.finish())
    }

    /// Reads an error from the JSON value that stands for it.
    ///
    /// Returns `None` if the value is no object with an integer `code` and a string `message`.
    pub fn from_value(v: Value) -> (r: Option<Self>)
        ensures
            match r {
                Some(e) => ErrorView::of_json(json(v)) == Some(e@),
                None => ErrorView::of_json(json(v)) is None,
            },
    {
        match open(v) {
            Json::Object(o) => {
                let mut o = o;
                proof {
                    lemma_error_keys();
                }
                let code = into_i32(remove_member(&mut o, "code"));
                let message = into_text(remove_member(&mut o, "message"));
                let data = drop_null(remove_member(&mut o, "data"));
                match (code, message) {
                    (Some(code), Some(message)) => Some(Self { code, message, data }),
                    _ => None,
                }
            },
            _ => None,
        }
    }
}

/// The member names of an error object differ.
proof fn lemma_error_keys()
    ensures
        "code"@ != "message"@,
        "code"@ != "data"@,
        "message"@ != "data"@,
{
    reveal_strlit("code");
    reveal_strlit("message");
    reveal_strlit("data");
    assert("code"@.len() != "message"@.len());
    assert("data"@.len() != "message"@.len());
    assert("data"@[0] != "code"@[0]);
}

} // verus!
