//! Request identifiers of JSON-RPC messages.
//!
//! An identifier is either an integer or a string. The two kinds never compare equal,
//! even where they print the same text.

use vstd::prelude::*;

use crate::json::{close, number_from_i32, number_to_i32, open, Json};
use crate::text::signed_decimal_text;
use serde_json::Value;

verus! {

use crate::json::{as_i32, integer, json, JsonView, NumberView};
use crate::text::{
    all_digits, decimal, number_of, numeral_stands_for_its_number, signed_decimal,
    signed_numeral_stands_for_its_number,
};
use vstd::std_specs::cmp::PartialEqSpec;

/// A request identifier that is either an integer or a string.
#[derive(Debug, Eq, Hash)]
pub enum RequestId {
    /// An integer request ID (most common in practice).
    Integer(i32),
    /// A string request ID.
    String(String),
}

/// The mathematical value of a [`RequestId`].
pub enum IdView {
    /// The value of an integer ID.
    Integer(i32),
    /// The characters of a string ID.
    String(Seq<char>),
}

impl View for RequestId {
    type V = IdView;

    open spec fn view(&self) -> IdView {
        match self {
            RequestId::Integer(n) => IdView::Integer(*n),
            RequestId::String(s) => IdView::String(s@),
        }
    }
}

impl Clone for RequestId {
    fn clone(&self) -> (r: Self)
        ensures
            r == *self,
    {
        match self {
            RequestId::Integer(n) => RequestId::Integer(*n),
            RequestId::String(s) => RequestId::String(s.clone()),
        }
    }
}

impl vstd::std_specs::cmp::PartialEqSpecImpl for RequestId {
    open spec fn obeys_eq_spec() -> bool {
        true
    }

    open spec fn eq_spec(&self, other: &Self) -> bool {
        self@ == other@
    }
}

impl PartialEq for RequestId {
    fn eq(&self, other: &Self) -> (r: bool) {
        match (self, other) {
            (RequestId::Integer(a), RequestId::Integer(b)) => *a == *b,
            (RequestId::String(a), RequestId::String(b)) => *a == *b,
            _ => false,
        }
    }
}

impl vstd::std_specs::convert::FromSpecImpl<i32> for RequestId {
    open spec fn obeys_from_spec() -> bool {
        true
    }

    open spec fn from_spec(n: i32) -> Self {
        RequestId::Integer(n)
    }
}

impl From<i32> for RequestId {
    fn from(n: i32) -> (r: Self) {
        RequestId::Integer(n)
    }
}

impl vstd::std_specs::convert::FromSpecImpl<String> for RequestId {
    open spec fn obeys_from_spec() -> bool {
        true
    }

    open spec fn from_spec(s: String) -> Self {
        RequestId::String(s)
    }
}

impl From<String> for RequestId {
    fn from(s: String) -> (r: Self) {
        RequestId::String(s)
    }
}

impl<'a> vstd::std_specs::convert::FromSpecImpl<&'a str> for RequestId {
    open spec fn obeys_from_spec() -> bool {
        false
    }

    open spec fn from_spec(s: &'a str) -> Self {
        arbitrary()
    }
}

impl<'a> From<&'a str> for RequestId {
    fn from(s: &'a str) -> (r: Self)
        ensures
            r@ == IdView::String(s@),
    {
        RequestId::String(s.to_owned())
    }
}

impl IdView {
    /// The text that the identifier prints as.
    pub open spec fn text(self) -> Seq<char> {
        match self {
            IdView::Integer(n) => signed_decimal(n as int),
            IdView::String(s) => s,
        }
    }

    /// The JSON value that stands for the identifier.
    pub open spec fn to_json(self) -> JsonView {
        match self {
            IdView::Integer(n) => integer(n),
            IdView::String(s) => JsonView::String(s),
        }
    }

    /// The identifier that a JSON value stands for: a string, or an integer of 32 bits.
    pub open spec fn of_json(v: JsonView) -> Option<IdView> {
        match v {
            JsonView::String(s) => Some(IdView::String(s)),
            _ => match as_i32(Some(v)) {
                Some(n) => Some(IdView::Integer(n)),
                None => None,
            },
        }
    }
}

/// An integer and a string are different identifiers, also where they print the same text.
pub proof fn integer_and_string_ids_differ(n: i32, s: Seq<char>)
    ensures
        IdView::Integer(n) != IdView::String(s),
        IdView::Integer(n).to_json() != IdView::String(s).to_json(),
{
}

/// Reading the JSON value of an identifier gives the identifier back.
pub proof fn id_json_round_trip(id: IdView)
    ensures
        IdView::of_json(id.to_json()) == Some(id),
{
}

/// A JSON value that reads as an identifier is the value of that identifier.
pub proof fn id_json_is_canonical(v: JsonView)
    ensures
        IdView::of_json(v) matches Some(id) ==> id.to_json() == v,
{
}

/// The JSON value of an integer identifier is that number, and of a string identifier that string.
pub proof fn id_is_its_number_or_string(n: i32, s: Seq<char>)
    ensures
        IdView::Integer(n).to_json() == JsonView::Number(NumberView::Integer(n as int)),
        IdView::String(s).to_json() == JsonView::String(s),
{
}

/// Every string and every integer of 32 bits is read as the identifier that holds it, and no other
/// value is read as an identifier.
pub proof fn strings_and_integers_are_ids(v: JsonView)
    ensures
        v matches JsonView::String(s) ==> IdView::of_json(v) == Some(IdView::String(s)),
        v matches JsonView::Number(NumberView::Integer(n)) ==> IdView::of_json(v) == (if
            -0x8000_0000 <= n <= 0x7fff_ffff {
            Some(IdView::Integer(n as i32))
        } else {
            None
        }),
        v matches JsonView::Number(NumberView::Float(_)) ==> IdView::of_json(v) is None,
        v is Null || v is Bool || v is Array || v is Object ==> IdView::of_json(v) is None,
{
}

/// A string identifier prints as its string. An integer prints as its digits, without needless
/// zeros, behind a minus sign if it is negative.
pub proof fn id_prints_as_its_number_or_string(n: i32, s: Seq<char>)
    ensures
        IdView::String(s).text() == s,
        exists|digits: Seq<char>| #[trigger]
            all_digits(digits) && digits.len() > 0 && (digits[0] == '0' ==> digits.len() == 1) && (
            n >= 0 ==> number_of(digits) == n && IdView::Integer(n).text() == digits) && (n < 0
                ==> number_of(digits) == -n && IdView::Integer(n).text() == seq!['-'] + digits),
{
    let size: nat = if n >= 0 {
        n as nat
    } else {
        (-n) as nat
    };
    numeral_stands_for_its_number(size);
    signed_numeral_stands_for_its_number(size);
    assert(all_digits(decimal(size)));
}

/// Two identifiers are equal if they are the same integer or the same string.
pub proof fn ids_are_equal_that_hold_the_same(a: RequestId, b: RequestId)
    ensures
        a.eq_spec(&b) <==> match (a, b) {
            (RequestId::Integer(m), RequestId::Integer(n)) => m == n,
            (RequestId::String(s), RequestId::String(t)) => s@ == t@,
            _ => false,
        },
{
}

/// The value of an identifier holds what the identifier holds.
pub proof fn id_view_holds_its_fields(id: RequestId)
    ensures
        id matches RequestId::Integer(n) ==> id@ == IdView::Integer(n),
        id matches RequestId::String(s) ==> id@ == IdView::String(s@),
{
}

impl RequestId {
    /// Returns the text of the identifier: the decimal numeral of an integer, or the string.
    pub fn to_string(&self) -> (r: String)
        ensures
            r@ == self@.text(),
    {
        match self {
            RequestId::Integer(n) => signed_decimal_text(*n),
            RequestId::String(s) => s.clone(),
        }
    }

    /// Turns the identifier into the JSON value that stands for it: a number or a string.
    pub fn into_value(self) -> (r: Value)
        ensures
            json(r) == self@.to_json(),
    {
        match self {
            RequestId::Integer(n) => close(Json::Number(number_from_i32(n))),
            RequestId::String(s) => close(Json::String(s)),
        }
    }

    /// Reads an identifier from the JSON value that stands for it.
    ///
    /// Returns `None` if the value is neither a string nor an integer of 32 bits.
    pub fn from_value(v: Value) -> (r: Option<Self>)
        ensures
            match r {
                Some(id) => IdView::of_json(json(v)) == Some(id@),
                None => IdView::of_json(json(v)) is None,
            },
    {
        match open(v) {
            Json::Number(n) => match number_to_i32(&n) {
                Some(n) => Some(RequestId::Integer(n)),
                None => None,
            },
            Json::String(s) => Some(RequestId::String(s)),
            _ => None,
        }
    }
}

} // verus!
