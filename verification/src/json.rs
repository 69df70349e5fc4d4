//! JSON values: the mathematical value of a [`serde_json::Value`], and the calls into serde_json.

use vstd::prelude::*;

verus! {

use crate::text::is_digit;

/// `serde_json::Value`, of which contracts speak through [`json`].
#[verifier::external_type_specification]
#[verifier::external_body]
pub struct ExValue(serde_json::Value);

/// `serde_json::Number`, of which contracts speak through [`number`].
#[verifier::external_type_specification]
#[verifier::external_body]
pub struct ExNumber(serde_json::Number);

/// `serde_json::Map`, of which contracts speak through [`members`].
#[verifier::external_type_specification]
#[verifier::external_body]
#[verifier::reject_recursive_types(K)]
#[verifier::reject_recursive_types(V)]
pub struct ExObject<K, V>(serde_json::Map<K, V>);

/// `serde_json::Error`, carried through as it is.
#[verifier::external_type_specification]
#[verifier::external_body]
pub struct ExJsonError(serde_json::Error);

/// The mathematical value of a JSON number.
pub enum NumberView {
    /// A number that is held as an integer.
    Integer(int),
    /// A number that is held in floating point.
    Float(serde_json::Number),
}

/// The mathematical value of a JSON value.
pub enum JsonView {
    /// `null`.
    Null,
    /// `true` or `false`.
    Bool(bool),
    /// A number.
    Number(NumberView),
    /// A string, by its characters.
    String(Seq<char>),
    /// An array.
    Array(Seq<JsonView>),
    /// An object: each key once, in no order.
    Object(Map<Seq<char>, JsonView>),
}

/// A JSON value, opened at its top level.
#[derive(Debug)]
pub enum Json {
    /// `null`.
    Null,
    /// `true` or `false`.
    Bool(bool),
    /// A number.
    Number(serde_json::Number),
    /// A string.
    String(String),
    /// An array.
    Array(Vec<serde_json::Value>),
    /// An object.
    Object(serde_json::Map<String, serde_json::Value>),
}

/// What a `serde_json::Value` holds.
pub uninterp spec fn json(v: serde_json::Value) -> JsonView;

/// What a `serde_json::Number` holds.
pub uninterp spec fn number(n: serde_json::Number) -> NumberView;

/// What a `serde_json::Map` holds.
pub uninterp spec fn members(m: serde_json::Map<String, serde_json::Value>) -> Map<
    Seq<char>,
    JsonView,
>;

/// What `serde_json::from_slice::<Value>` returns for a text.
pub uninterp spec fn read_json(text: Seq<u8>) -> Result<serde_json::Value, serde_json::Error>;

/// The text that `serde_json::to_vec` writes for a value that [`leaf_text`] does not cover.
pub uninterp spec fn write_json(v: JsonView) -> Seq<u8>;

/// The value that `Value::deserialize` reads at the start of a text, whatever follows it there.
pub uninterp spec fn leading_json(text: Seq<u8>) -> Option<serde_json::Value>;

/// The message that a `serde_json::Error` of [`read_json`] displays.
pub uninterp spec fn json_error_text(e: serde_json::Error) -> Seq<char>;

/// The message that `Error::custom` made a `serde_json::Error` with, where it did.
pub uninterp spec fn custom_error_text(e: serde_json::Error) -> Option<Seq<char>>;

/// The error came of reading some text.
pub open spec fn is_read_error(e: serde_json::Error) -> bool {
    exists|text: Seq<u8>| #[trigger]
        read_json(text) == Err::<serde_json::Value, serde_json::Error>(e)
}

/// The message that a `serde_json::Error` displays, where that is a function of the error: it was
/// made with a message, or came of reading a text.
pub open spec fn shown_text(e: serde_json::Error) -> Option<Seq<char>> {
    match custom_error_text(e) {
        Some(text) => Some(text),
        None => if is_read_error(e) {
            Some(json_error_text(e))
        } else {
            None
        },
    }
}

/// The value that an opened value stands for.
pub open spec fn closed(j: Json) -> JsonView {
    match j {
        Json::Null => JsonView::Null,
        Json::Bool(b) => JsonView::Bool(b),
        Json::Number(n) => JsonView::Number(number(n)),
        Json::String(s) => JsonView::String(s@),
        Json::Array(a) => JsonView::Array(a@.map_values(|v: serde_json::Value| json(v))),
        Json::Object(o) => JsonView::Object(members(o)),
    }
}

/// The value inside an option, by what it holds.
pub open spec fn json_in(v: Option<serde_json::Value>) -> Option<JsonView> {
    match v {
        Some(v) => Some(json(v)),
        None => None,
    }
}

/// An object without members.
pub open spec fn no_members() -> Map<Seq<char>, JsonView> {
    Map::empty()
}

/// The member of an object under `key`, if there is one.
pub open spec fn member(o: Map<Seq<char>, JsonView>, key: Seq<char>) -> Option<JsonView> {
    if o.contains_key(key) {
        Some(o[key])
    } else {
        None
    }
}

/// A member that is there and is not `null`.
pub open spec fn non_null(v: Option<JsonView>) -> Option<JsonView> {
    if v == Some(JsonView::Null) {
        None
    } else {
        v
    }
}

/// The characters of a member that is a string.
pub open spec fn as_text(v: Option<JsonView>) -> Option<Seq<char>> {
    match v {
        Some(JsonView::String(s)) => Some(s),
        _ => None,
    }
}

/// The number of a member that is an integer of 32 bits.
pub open spec fn as_i32(v: Option<JsonView>) -> Option<i32> {
    match v {
        Some(JsonView::Number(NumberView::Integer(n))) => if i32::MIN <= n <= i32::MAX {
            Some(n as i32)
        } else {
            None
        },
        _ => None,
    }
}

/// The characters of an optional string.
pub open spec fn text_in(s: Option<String>) -> Option<Seq<char>> {
    match s {
        Some(s) => Some(s@),
        None => None,
    }
}

/// The JSON number `n`.
pub open spec fn integer(n: i32) -> JsonView {
    JsonView::Number(NumberView::Integer(n as int))
}

/// `o` with the member `key` set to `v`, or as it is where there is no `v`.
pub open spec fn with_member(
    o: Map<Seq<char>, JsonView>,
    key: Seq<char>,
    v: Option<JsonView>,
) -> Map<Seq<char>, JsonView> {
    match v {
        Some(v) => o.insert(key, v),
        None => o,
    }
}

/// The value is one that a text can hold exactly: its numbers are integers of 64 bits, its objects
/// are finite, and its arrays and objects are nested at most `depth` deep.
pub open spec fn is_exact(v: JsonView, depth: nat) -> bool
    decreases depth,
{
    match v {
        JsonView::Null | JsonView::Bool(_) | JsonView::String(_) => true,
        JsonView::Number(n) => n matches NumberView::Integer(i) && i64::MIN <= i <= u64::MAX,
        JsonView::Array(a) => depth > 0 && forall|i: int|
            0 <= i < a.len() ==> is_exact(#[trigger] a[i], (depth - 1) as nat),
        JsonView::Object(o) => depth > 0 && o.dom().finite() && forall|k: Seq<char>|
            o.contains_key(k) ==> is_exact(#[trigger] o[k], (depth - 1) as nat),
    }
}

/// How deep arrays and objects may be nested in a text that is read.
pub const MAX_DEPTH: u64 = 127;

/// A JSON document as it is written: a value, or an object whose members stand in a given order.
pub enum DocView {
    /// A value, as serde_json writes it.
    Value(JsonView),
    /// An object.
    Object(Seq<DocMember>),
}

/// A member of an object in a document.
pub struct DocMember {
    /// The name of the member.
    pub key: Seq<char>,
    /// The value of the member.
    pub value: DocView,
}

/// The text of a document, without white space.
pub open spec fn doc_text(d: DocView) -> Seq<u8>
    decreases d,
{
    match d {
        DocView::Value(v) => value_text(v),
        DocView::Object(ms) => seq![123u8] + members_text(ms) + seq![125u8],
    }
}

/// The text of a member: its name in quotes, a colon and the text of its value.
pub open spec fn member_text(key: Seq<char>, value: Seq<u8>) -> Seq<u8> {
    seq![34u8] + vstd::utf8::encode_utf8(key) + seq![34u8, 58u8] + value
}

/// The texts of the members, with commas between them.
pub open spec fn members_text(ms: Seq<DocMember>) -> Seq<u8>
    decreases ms,
{
    if ms.len() == 0 {
        Seq::empty()
    } else {
        let last = member_text(ms[ms.len() - 1].key, doc_text(ms[ms.len() - 1].value));
        if ms.len() == 1 {
            last
        } else {
            members_text(ms.drop_last()) + seq![44u8] + last
        }
    }
}

/// The value that a document stands for.
pub open spec fn doc_json(d: DocView) -> JsonView
    decreases d,
{
    match d {
        DocView::Value(v) => v,
        DocView::Object(ms) => JsonView::Object(members_json(ms)),
    }
}

/// The object that members make.
pub open spec fn members_json(ms: Seq<DocMember>) -> Map<Seq<char>, JsonView>
    decreases ms,
{
    if ms.len() == 0 {
        Map::empty()
    } else {
        members_json(ms.drop_last()).insert(
            ms[ms.len() - 1].key,
            doc_json(ms[ms.len() - 1].value),
        )
    }
}

/// The member names are different, and made of letters.
pub open spec fn plain_keys(ms: Seq<DocMember>) -> bool {
    &&& forall|i: int, j: int|
        0 <= i < j < ms.len() ==> (#[trigger] ms[i]).key != (#[trigger] ms[j]).key
    &&& forall|i: int, j: int|
        0 <= i < ms.len() && 0 <= j < ms[i].key.len() ==> 'a' <= #[trigger] ms[i].key[j] <= 'z'
}

/// The document is one that is read exactly: its values are exact, and its member names plain.
pub open spec fn is_exact_doc(d: DocView, depth: nat) -> bool
    decreases depth,
{
    match d {
        DocView::Value(v) => is_exact(v, depth),
        DocView::Object(ms) => depth > 0 && plain_keys(ms) && forall|i: int|
            0 <= i < ms.len() ==> is_exact_doc((#[trigger] ms[i]).value, (depth - 1) as nat),
    }
}

/// Every exact document with this text is read as the value that it stands for.
pub open spec fn reads_documents(
    text: Seq<u8>,
    read: Result<serde_json::Value, serde_json::Error>,
) -> bool {
    forall|d: DocView| #[trigger]
        doc_text(d) == text && is_exact_doc(d, MAX_DEPTH as nat) ==> (read matches Ok(v) && json(v)
            == doc_json(d))
}

/// The characters stand in a JSON string as they are.
pub open spec fn needs_no_escape(s: Seq<char>) -> bool {
    forall|i: int| 0 <= i < s.len() ==> ' ' <= #[trigger] s[i] && s[i] != '"' && s[i] != '\\'
}

/// The text of a value that is no array and no object, where it is written plainly.
pub open spec fn leaf_text(v: JsonView) -> Option<Seq<u8>> {
    match v {
        JsonView::Null => Some(vstd::utf8::encode_utf8("null"@)),
        JsonView::Bool(true) => Some(vstd::utf8::encode_utf8("true"@)),
        JsonView::Bool(false) => Some(vstd::utf8::encode_utf8("false"@)),
        JsonView::Number(NumberView::Integer(n)) => Some(
            vstd::utf8::encode_utf8(crate::text::signed_decimal(n)),
        ),
        JsonView::String(s) => if needs_no_escape(s) {
            Some(seq![34u8] + vstd::utf8::encode_utf8(s) + seq![34u8])
        } else {
            None
        },
        _ => None,
    }
}

/// The text of a value.
pub open spec fn value_text(v: JsonView) -> Seq<u8> {
    match leaf_text(v) {
        Some(text) => text,
        None => write_json(v),
    }
}

/// `ms` with the member `key` at the end, or as it is where there is no `v`.
pub open spec fn with_doc_member(
    ms: Seq<DocMember>,
    key: Seq<char>,
    v: Option<JsonView>,
) -> Seq<DocMember> {
    match v {
        Some(v) => ms.push(DocMember { key, value: DocView::Value(v) }),
        None => ms,
    }
}

/// A name in quotes with a colon behind it, as it stands before the value of a member.
pub open spec fn name_text(name: Seq<char>) -> Seq<u8> {
    seq!['"' as u8] + vstd::utf8::encode_utf8(name) + seq!['"' as u8, ':' as u8]
}

/// What one more member adds to the object and to the text.
pub(crate) proof fn lemma_push_member(ms: Seq<DocMember>, m: DocMember)
    ensures
        members_json(ms.push(m)) == members_json(ms).insert(m.key, doc_json(m.value)),
        members_text(ms.push(m)) == (if ms.len() == 0 {
            member_text(m.key, doc_text(m.value))
        } else {
            members_text(ms) + seq![44u8] + member_text(m.key, doc_text(m.value))
        }),
        ms.len() > 0 ==> members_text(ms).len() > 0,
{
    assert(ms.push(m).drop_last() =~= ms);
}

/// What `d` stands for is `v`, and `d` is exact where `v` is.
pub open spec fn stands_for(d: DocView, v: JsonView) -> bool {
    &&& doc_json(d) == v
    &&& forall|depth: nat| #[trigger] is_exact(v, depth) ==> is_exact_doc(d, depth)
}

/// A document stands for an object if its members have different plain names and stand for the
/// members of the object.
pub(crate) proof fn lemma_stands_for(ms: Seq<DocMember>, o: Map<Seq<char>, JsonView>)
    requires
        members_json(ms) == o,
        plain_keys(ms),
        forall|i: int|
            0 <= i < ms.len() ==> o.contains_key((#[trigger] ms[i]).key) && stands_for(
                ms[i].value,
                o[ms[i].key],
            ),
    ensures
        stands_for(DocView::Object(ms), JsonView::Object(o)),
{
    assert forall|depth: nat| #[trigger] is_exact(JsonView::Object(o), depth) implies is_exact_doc(
        DocView::Object(ms),
        depth,
    ) by {
        assert forall|i: int| 0 <= i < ms.len() implies is_exact_doc(
            (#[trigger] ms[i]).value,
            (depth - 1) as nat,
        ) by {
            assert(is_exact(o[ms[i].key], (depth - 1) as nat));
        }
    }
}

/// Opens a value: the match on `serde_json::Value`, one arm for each variant.
#[verifier::external_body]
pub(crate) fn open(v: serde_json::Value) -> (r: Json)
    ensures
        closed(r) == json(v),
{
    match v {
        serde_json::Value::Null => Json::Null,
        serde_json::Value::Bool(b) => Json::Bool(b),
        serde_json::Value::Number(n) => Json::Number(n),
        serde_json::Value::String(s) => Json::String(s),
        serde_json::Value::Array(a) => Json::Array(a),
        serde_json::Value::Object(o) => Json::Object(o),
    }
}

/// Closes a value: the constructors of `serde_json::Value`, one for each variant.
#[verifier::external_body]
pub(crate) fn close(j: Json) -> (r: serde_json::Value)
    ensures
        json(r) == closed(j),
{
    match j {
        Json::Null => serde_json::Value::Null,
        Json::Bool(b) => serde_json::Value::Bool(b),
        Json::Number(n) => serde_json::Value::Number(n),
        Json::String(s) => serde_json::Value::String(s),
        Json::Array(a) => serde_json::Value::Array(a),
        Json::Object(o) => serde_json::Value::Object(o),
    }
}

/// `Clone` of `serde_json::Value` gives a value that holds the same.
pub assume_specification[ <serde_json::Value as Clone>::clone ](v: &serde_json::Value) -> (r:
    serde_json::Value)
    ensures
        json(r) == json(*v),
;

/// `serde_json::Number::as_i64` gives the number where it is held as an integer of that range,
/// and nothing for any other number.
pub assume_specification[ serde_json::Number::as_i64 ](n: &serde_json::Number) -> (r: Option<i64>)
    ensures
        match r {
            Some(i) => number(*n) == NumberView::Integer(i as int),
            None => number(*n) matches NumberView::Integer(i) ==> !(i64::MIN <= i <= i64::MAX),
        },
;

/// `serde_json::Number::from(i32)` holds that integer.
#[verifier::external_body]
pub(crate) fn number_from_i32(n: i32) -> (r: serde_json::Number)
    ensures
        number(r) == NumberView::Integer(n as int),
{
    serde_json::Number::from(n)
}

/// `serde_json::Map::new` makes an object without members.
#[verifier::external_body]
pub(crate) fn new_object() -> (r: serde_json::Map<String, serde_json::Value>)
    ensures
        members(r) == no_members(),
{
    serde_json::Map::new()
}

/// `serde_json::Map::insert` sets one member and leaves the others.
#[verifier::external_body]
pub(crate) fn insert_member(
    m: &mut serde_json::Map<String, serde_json::Value>,
    key: String,
    v: serde_json::Value,
) -> (r: Option<serde_json::Value>)
    ensures
        members(*final(m)) == members(*old(m)).insert(key@, json(v)),
        json_in(r) == (if members(*old(m)).contains_key(key@) {
            Some(members(*old(m))[key@])
        } else {
            None
        }),
{
    m.insert(key, v)
}

/// `serde_json::Map::remove` takes one member out, if it is there, and leaves the others.
#[verifier::external_body]
pub(crate) fn remove_member(
    m: &mut serde_json::Map<String, serde_json::Value>,
    key: &str,
) -> (r: Option<serde_json::Value>)
    ensures
        members(*final(m)) == members(*old(m)).remove(key@),
        json_in(r) == (if members(*old(m)).contains_key(key@) {
            Some(members(*old(m))[key@])
        } else {
            None
        }),
{
    m.remove(key)
}

/// `serde_json::from_slice` reads a value from a text, or gives the error that it met.
///
/// A text that is made of what `to_vec` writes and of the punctuation of objects is read as the
/// value that it stands for, where that holds no floating-point number and is not nested deeper
/// than the reader goes. Of other texts that is not claimed: the reader may round a floating-point
/// number, and it refuses deeper texts.
#[verifier::external_body]
pub(crate) fn value_from_slice(text: &[u8]) -> (r: Result<serde_json::Value, serde_json::Error>)
    ensures
        r == read_json(text@),
        reads_documents(text@, r),
{
    serde_json::from_slice(text)
}

/// `serde::Deserialize::deserialize` of `serde_json::Value`, on a `serde_json::Deserializer` over a
/// text, reads one value at the start of the text and leaves what follows unread.
#[verifier::external_body]
pub(crate) fn leading_value(text: &[u8]) -> (r: Option<serde_json::Value>)
    ensures
        r == leading_json(text@),
{
    let mut reader = serde_json::Deserializer::from_slice(text);
    serde::Deserialize::deserialize(&mut reader).ok()
}

/// `serde_json::to_vec` writes a value as a text. On a `Value` it always succeeds: every key is a
/// string and the writer is a vector. Integers, and strings in which nothing is to be escaped, are
/// written as they are.
#[verifier::external_body]
pub(crate) fn value_to_vec(v: &serde_json::Value) -> (r: Result<Vec<u8>, serde_json::Error>)
    ensures
        r is Ok,
        r->Ok_0@ == (match leaf_text(json(*v)) {
            Some(text) => text,
            None => write_json(json(*v)),
        }),
{
    serde_json::to_vec(v)
}

/// `serde::de::Error::custom` makes a `serde_json::Error` with a message. A message without digits
/// is kept as it is; one that ends with a line and a column would be taken apart.
#[verifier::external_body]
pub(crate) fn custom_error(text: &str) -> (r: serde_json::Error)
    requires
        forall|i: int| 0 <= i < text@.len() ==> !is_digit(#[trigger] text@[i]),
    ensures
        custom_error_text(r) == Some(text@),
{
    serde::de::Error::custom(text)
}

/// `Display` of `serde_json::Error`. Of an error that was made with a message, it is that message;
/// of one that came of reading a text, it is a function of the error. Of other errors nothing is
/// claimed: one that wraps an I/O error displays what that displays.
#[verifier::external_body]
pub(crate) fn error_text(e: &serde_json::Error) -> (r: String)
    ensures
        is_read_error(*e) ==> r@ == json_error_text(*e),
        custom_error_text(*e) matches Some(text) ==> r@ == text,
{
    e.to_string()
}

/// Clones the value inside an option.
pub(crate) fn clone_in(v: &Option<serde_json::Value>) -> (r: Option<serde_json::Value>)
    ensures
        json_in(r) == json_in(*v),
{
    match v {
        Some(v) => Some(v.clone()),
        None => None,
    }
}

/// Leaves out a `null`.
pub(crate) fn drop_null(v: Option<serde_json::Value>) -> (r: Option<serde_json::Value>)
    ensures
        json_in(r) == non_null(json_in(v)),
{
    match v {
        Some(v) => match open(v) {
            Json::Null => None,
            j => Some(close(j)),
        },
        None => None,
    }
}

/// The string that a member holds, if it is one.
pub(crate) fn into_text(v: Option<serde_json::Value>) -> (r: Option<String>)
    ensures
        text_in(r) == as_text(json_in(v)),
{
    match v {
        Some(v) => match open(v) {
            Json::String(s) => Some(s),
            _ => None,
        },
        None => None,
    }
}

/// The integer that a JSON number holds, if it is one of 32 bits.
pub(crate) fn number_to_i32(n: &serde_json::Number) -> (r: Option<i32>)
    ensures
        r == as_i32(Some(JsonView::Number(number(*n)))),
{
    match n.as_i64() {
        Some(i) => if i32::MIN as i64 <= i && i <= i32::MAX as i64 {
            Some(i as i32)
        } else {
            None
        },
        None => None,
    }
}

/// The integer that a member holds, if it is one of 32 bits.
pub(crate) fn into_i32(v: Option<serde_json::Value>) -> (r: Option<i32>)
    ensures
        r == as_i32(json_in(v)),
{
    match v {
        Some(v) => match open(v) {
            Json::Number(n) => number_to_i32(&n),
            _ => None,
        },
        None => None,
    }
}

/// Sets the member `key` to a string.
pub(crate) fn put_text(
    o: &mut serde_json::Map<String, serde_json::Value>,
    key: &str,
    text: String,
)
    ensures
        members(*final(o)) == members(*old(o)).insert(key@, JsonView::String(text@)),
{
    let _ = insert_member(o, key.to_owned(), close(Json::String(text)));
}

/// Sets the member `key` to an integer.
pub(crate) fn put_i32(o: &mut serde_json::Map<String, serde_json::Value>, key: &str, n: i32)
    ensures
        members(*final(o)) == members(*old(o)).insert(key@, integer(n)),
{
    let _ = insert_member(o, key.to_owned(), close(Json::Number(number_from_i32(n))));
}

/// Sets the member `key`, where there is a value for it.
pub(crate) fn put_some(
    o: &mut serde_json::Map<String, serde_json::Value>,
    key: &str,
    v: Option<serde_json::Value>,
)
    ensures
        members(*final(o)) == with_member(members(*old(o)), key@, json_in(v)),
{
    match v {
        Some(v) => {
            let _ = insert_member(o, key.to_owned(), v);
        },
        None => {},
    }
}

/// The text of an object while its members are written.
pub(crate) struct ObjectText {
    bytes: Vec<u8>,
    members: Ghost<Seq<DocMember>>,
}

impl ObjectText {
    /// The bytes are the text of the members, behind the opening brace.
    pub(crate) closed spec fn wf(self) -> bool {
        self.bytes@ == seq![123u8] + members_text(self.members@)
    }

    /// The members that were written.
    pub(crate) closed spec fn members(self) -> Seq<DocMember> {
        self.members@
    }

    /// Starts an object.
    pub(crate) fn new() -> (r: Self)
        ensures
            r.wf(),
            r.members() == Seq::<DocMember>::empty(),
    {
        let mut bytes: Vec<u8> = Vec::new();
        bytes.push(123);
        let members: Ghost<Seq<DocMember>> = Ghost(Seq::empty());
        assert(bytes@ =~= seq![123u8] + members_text(members@));
        Self { bytes, members }
    }

    /// Writes a member, whose value has the given text.
    pub(crate) fn put(&mut self, key: &str, text: &[u8], Ghost(value): Ghost<DocView>)
        requires
            old(self).wf(),
            text@ == doc_text(value),
        ensures
            final(self).wf(),
            final(self).members() == old(self).members().push(DocMember { key: key@, value }),
    {
        let ghost before = self.members@;
        proof {
            lemma_push_member(before, DocMember { key: key@, value });
        }
        if self.bytes.len() > 1 {
            self.bytes.push(44);
        }
        self.bytes.push(34);
        self.bytes.extend_from_slice(key.as_bytes());
        self.bytes.push(34);
        self.bytes.push(58);
        self.bytes.extend_from_slice(text);
        self.members = Ghost(before.push(DocMember { key: key@, value }));
        assert(self.bytes@ =~= seq![123u8] + members_text(self.members@));
    }

    /// Writes a member with a JSON value.
    pub(crate) fn put_value(&mut self, key: &str, v: &serde_json::Value) -> (r: Result<
        (),
        serde_json::Error,
    >)
        requires
            old(self).wf(),
        ensures
            r == Ok::<(), serde_json::Error>(()),
            final(self).wf(),
            final(self).members() == old(self).members().push(
                DocMember { key: key@, value: DocView::Value(json(*v)) },
            ),
    {
        match value_to_vec(v) {
            Ok(text) => {
                self.put(key, text.as_slice(), Ghost(DocView::Value(json(*v))));
                Ok(())
            },
            Err(e) => Err(e),
        }
    }

    /// Writes a member with a string.
    pub(crate) fn put_string(&mut self, key: &str, s: String) -> (r: Result<(), serde_json::Error>)
        requires
            old(self).wf(),
        ensures
            r == Ok::<(), serde_json::Error>(()),
            final(self).wf(),
            final(self).members() == old(self).members().push(
                DocMember { key: key@, value: DocView::Value(JsonView::String(s@)) },
            ),
    {
        self.put_value(key, &close(Json::String(s)))
    }

    /// Writes a member, where there is a value for it.
    pub(crate) fn put_optional(&mut self, key: &str, v: &Option<serde_json::Value>) -> (r: Result<
        (),
        serde_json::Error,
    >)
        requires
            old(self).wf(),
        ensures
            r == Ok::<(), serde_json::Error>(()),
            final(self).wf(),
            final(self).members() == with_doc_member(old(self).members(), key@, json_in(*v)),
    {
        match v {
            Some(v) => self.put_value(key, v),
            None => Ok(()),
        }
    }

    /// Ends the object.
    pub(crate) fn finish(self) -> (r: Vec<u8>)
        requires
            self.wf(),
        ensures
            r@ == doc_text(DocView::Object(self.members())),
    {
        let mut bytes = self.bytes;
        bytes.push(125);
        assert(bytes@ =~= doc_text(DocView::Object(self.members@)));
        bytes
    }
}

} // verus!
