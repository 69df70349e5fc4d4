//! Content-Length framing of messages.
//!
//! A frame is a header, a blank line and a body:
//! ```text
//! Content-Length: {byte_count}\r\n\r\n{json_body}
//! ```
//!
//! [`LspCodec`] writes frames to a buffer and reads them from one. Reading keeps its place between
//! calls, so that a frame may arrive in pieces.

use vstd::prelude::*;

use crate::buffer::{advance, as_slice, extend_from_slice, split_to};
use crate::io_error::{new_io_error, IoKind, IoPayload};
use crate::json::{custom_error, error_text, leading_value, value_from_slice};
use crate::message::{MemberNames, Message};
use crate::text::{
    decimal_text, find_line_end, join, parse_unsigned, str_from_utf8, trim_bounds,
    utf8_error_to_text, LengthError,
};
use bytes::BytesMut;
use serde_json::Value;

verus! {

use crate::buffer::contents;
use crate::io_error::{io_error_kind, io_error_payload, io_error_text};
use crate::json::{
    custom_error_text, doc_text, is_exact, is_exact_doc, json, leading_json, read_json,
    reads_documents, shown_text, MAX_DEPTH,
};
use crate::message::{MessageView, NamesView};
use crate::text::{
    all_digits, ascii_lower, ascii_lower_case, blanks_are_trimmed, crlf, decimal,
    decimal_reads_back, digits_are_read_as_their_number, first_occurrence, int_error, is_digit,
    is_one_line, is_white_space, lemma_decimal_digits, lemma_first_occurrence_is, lines,
    lines_are_split_where_they_were_joined, number_of, numeral_stands_for_its_number, occurs_at,
    occurs_first_at, text_of_lines, trim, trim_end, trim_start, unsigned_value, utf8_error,
    utf8_error_text,
};
use vstd::utf8::{decode_utf8, encode_scalar, encode_utf8, is_ascii_chars, valid_utf8};

/// The default maximum Content-Length value (10 MB).
pub const DEFAULT_MAX_CONTENT_LENGTH: usize = 10 * 1024 * 1024;

/// Why a frame cannot be read or written.
#[derive(Debug)]
pub enum CodecError {
    /// The headers are not valid UTF-8.
    HeaderEncoding(std::str::Utf8Error),
    /// There is no `Content-Length` header.
    MissingContentLength,
    /// The value of the `Content-Length` header is no number.
    InvalidContentLength(LengthError),
    /// The body is longer than the codec allows.
    ContentTooLarge {
        /// The length that the header gives.
        content_length: usize,
        /// The largest length that the codec allows.
        max: usize,
    },
    /// The body is no JSON text, or a value cannot be written as one.
    InvalidJson(serde_json::Error),
    /// The body is a JSON value, but no message.
    InvalidMessage,
}

impl CodecError {
    /// The message of this error. That of a JSON error is known only where it is a function of the
    /// error.
    pub open spec fn text(self) -> Option<Seq<char>> {
        match self {
            CodecError::HeaderEncoding(e) => Some(utf8_error_text(e)),
            CodecError::MissingContentLength => Some("Missing Content-Length header"@),
            CodecError::InvalidContentLength(e) => Some(e.text()),
            CodecError::ContentTooLarge { content_length, max } => Some(
                "Content-Length "@ + decimal(content_length as nat) + " exceeds maximum "@
                    + decimal(max as nat),
            ),
            CodecError::InvalidJson(e) => shown_text(e),
            CodecError::InvalidMessage => Some(
                "data did not match any variant of untagged enum Message"@,
            ),
        }
    }

    /// Returns the message of this error.
    pub fn to_string(&self) -> (r: String)
        ensures
            self.text() matches Some(text) ==> r@ == text,
    {
        match self {
            CodecError::HeaderEncoding(e) => utf8_error_to_text(e),
            CodecError::MissingContentLength => "Missing Content-Length header".to_owned(),
            CodecError::InvalidContentLength(e) => e.to_string(),
            CodecError::ContentTooLarge { content_length, max } => {
                let mut text = join(
                    "Content-Length ",
                    decimal_text(*content_length as u64).as_str(),
                );
                text.append(" exceeds maximum ");
                text.append(decimal_text(*max as u64).as_str());
                text
            },
            CodecError::InvalidJson(e) => error_text(e),
            CodecError::InvalidMessage =>
                "data did not match any variant of untagged enum Message".to_owned(),
        }
    }
}

impl vstd::std_specs::convert::FromSpecImpl<CodecError> for std::io::Error {
    open spec fn obeys_from_spec() -> bool {
        false
    }

    open spec fn from_spec(e: CodecError) -> Self {
        arbitrary()
    }
}

impl From<CodecError> for std::io::Error {
    /// An I/O error of kind `InvalidData`. Its payload is the error of the JSON reader, of reading
    /// UTF-8 or of reading an integer, where it is one of these, and the message otherwise.
    fn from(e: CodecError) -> (r: Self)
        ensures
            io_error_kind(r) == Some(IoKind::InvalidData),
            match e {
                CodecError::HeaderEncoding(u) => io_error_payload(r) == Some(IoPayload::Utf8(u)),
                CodecError::InvalidContentLength(l) => io_error_payload(r) matches Some(
                    IoPayload::Integer(p),
                ) && int_error(p) == Some(l),
                CodecError::InvalidJson(j) => io_error_payload(r) == Some(IoPayload::Json(j)),
                CodecError::InvalidMessage => io_error_payload(r) matches Some(IoPayload::Json(j))
                    && custom_error_text(j) == e.text(),
                _ => io_error_payload(r) matches Some(IoPayload::Text(t)) && Some(t@) == e.text(),
            },
            !(e is InvalidContentLength) ==> io_error_text(r) == e.text(),
    {
        let payload = match e {
            CodecError::HeaderEncoding(e) => IoPayload::Utf8(e),
            CodecError::InvalidContentLength(e) => IoPayload::Integer(e.to_parse_error()),
            CodecError::InvalidJson(e) => IoPayload::Json(e),
            CodecError::InvalidMessage => {
                proof {
                    reveal_strlit("data did not match any variant of untagged enum Message");
                }
                IoPayload::Json(
                    custom_error("data did not match any variant of untagged enum Message"),
                )
            },
            e => IoPayload::Text(e.to_string()),
        };
        new_io_error(IoKind::InvalidData, payload)
    }
}

/// The bytes that end the headers: two line ends.
pub open spec fn terminator() -> Seq<u8> {
    seq![13u8, 10u8, 13u8, 10u8]
}

/// `line` is a `Content-Length` header, its name in any case.
pub open spec fn names_content_length(line: Seq<char>) -> bool {
    line.len() >= 15 && ascii_lower_case(line.take(15)) == "content-length:"@
}

/// What follows the name in the first `Content-Length` line, if there is one.
pub open spec fn content_length_value(lines: Seq<Seq<char>>) -> Option<Seq<char>>
    decreases lines.len(),
{
    if lines.len() == 0 {
        None
    } else if names_content_length(lines[0]) {
        Some(lines[0].skip(15))
    } else {
        content_length_value(lines.skip(1))
    }
}

/// The content length that the headers give, or why they give none.
pub open spec fn content_length(headers: Seq<u8>) -> Result<usize, CodecError> {
    if !valid_utf8(headers) {
        Err(CodecError::HeaderEncoding(utf8_error(headers)))
    } else {
        match content_length_value(lines(decode_utf8(headers))) {
            None => Err(CodecError::MissingContentLength),
            Some(value) => match unsigned_value(trim(value)) {
                Ok(n) => Ok(n as usize),
                Err(e) => Err(CodecError::InvalidContentLength(e)),
            },
        }
    }
}

/// Finds the position of `needle` in `haystack`.
///
/// Returns the index of the first byte of the first occurrence of `needle`
/// within `haystack`, or `None` if not found.
pub fn find_subsequence(haystack: &[u8], needle: &[u8]) -> (r: Option<usize>)
    requires
        needle@.len() > 0,
    ensures
        match r {
            Some(at) => first_occurrence(haystack@, needle@) == Some(at as int),
            None => first_occurrence(haystack@, needle@) is None,
        },
{
    if needle.len() > haystack.len() {
        assert(forall|i: int| !occurs_first_at(haystack@, needle@, i));
        return None;
    }
    let total: usize = haystack.len();
    let last: usize = total - needle.len();
    let mut at: usize = 0;
    loop
        invariant
            total == haystack@.len(),
            last == haystack@.len() - needle@.len(),
            at <= last,
            forall|j: int| 0 <= j < at ==> !#[trigger] occurs_at(haystack@, needle@, j),
        decreases last - at,
    {
        let mut k: usize = 0;
        while k < needle.len() && haystack[at + k] == needle[k]
            invariant
                total == haystack@.len(),
                last == haystack@.len() - needle@.len(),
                at <= last,
                k <= needle@.len(),
                forall|m: int| 0 <= m < k ==> haystack@[at + m] == #[trigger] needle@[m],
            ensures
                k <= needle@.len(),
                forall|m: int| 0 <= m < k ==> haystack@[at + m] == #[trigger] needle@[m],
                k < needle@.len() ==> haystack@[at + k] != needle@[k as int],
            decreases needle@.len() - k,
        {
            k += 1;
        }
        if k == needle.len() {
            proof {
                assert(haystack@.subrange(at as int, at + needle@.len()) =~= needle@);
                lemma_first_occurrence_is(haystack@, needle@, at as int);
            }
            return Some(at);
        }
        assert(!occurs_at(haystack@, needle@, at as int)) by {
            assert(haystack@.subrange(at as int, at + needle@.len())[k as int] == haystack@[at
                + k]);
        }
        if at == last {
            assert(forall|i: int| !occurs_first_at(haystack@, needle@, i));
            return None;
        }
        at += 1;
    }
}

/// The lower-case form of an ASCII letter; any other character as it is.
fn to_lower(c: char) -> (r: char)
    ensures
        r == ascii_lower(c),
{
    if 'A' <= c && c <= 'Z' {
        (c as u8 + 32) as char
    } else {
        c
    }
}

/// Tests whether `text[from..to]` is a `Content-Length` header line.
fn is_content_length_line(text: &Vec<char>, from: usize, to: usize) -> (r: bool)
    requires
        from <= to <= text@.len(),
    ensures
        r == names_content_length(text@.subrange(from as int, to as int)),
{
    let ghost line = text@.subrange(from as int, to as int);
    proof {
        reveal_strlit("content-length:");
    }
    if to - from < 15 {
        return false;
    }
    let name = "content-length:";
    let mut k: usize = 0;
    while k < 15
        invariant
            from + 15 <= to <= text@.len(),
            line == text@.subrange(from as int, to as int),
            name@ == "content-length:"@,
            name@.len() == 15,
            k <= 15,
            forall|m: int| 0 <= m < k ==> ascii_lower(line[m]) == #[trigger] name@[m],
        decreases 15 - k,
    {
        if to_lower(text[from + k]) != name.get_char(k) {
            assert(ascii_lower_case(line.take(15))[k as int] == ascii_lower(line[k as int]));
            return false;
        }
        k += 1;
    }
    assert(ascii_lower_case(line.take(15)) =~= name@);
    true
}

/// The characters of `s`.
fn collect_chars(s: &str) -> (r: Vec<char>)
    ensures
        r@ == s@,
{
    let mut chars: Vec<char> = Vec::new();
    for c in iter: s.chars()
        invariant
            chars@ =~= s@.take(iter.index() as int),
            iter.seq() == s@,
    {
        chars.push(c);
    }
    chars
}

/// Parses the Content-Length value from HTTP-style headers.
///
/// Header lines end with CR LF. The header's name is matched in any case, and the first line that
/// has it counts.
pub fn parse_content_length(headers: &[u8]) -> (r: Result<usize, CodecError>)
    ensures
        r == content_length(headers@),
{
    let text = match str_from_utf8(headers) {
        Ok(text) => collect_chars(text),
        Err(e) => return Err(CodecError::HeaderEncoding(e)),
    };
    let total: usize = text.len();
    let mut from: usize = 0;
    assert(text@.skip(0) =~= text@);
    loop
        invariant
            from <= text@.len() == total,
            valid_utf8(headers@),
            text@ == decode_utf8(headers@),
            content_length_value(lines(text@)) == content_length_value(
                lines(text@.skip(from as int)),
            ),
        decreases text@.len() - from,
    {
        let (end, more) = find_line_end(&text, from);
        let ghost rest = text@.skip(from as int);
        let ghost line = text@.subrange(from as int, end as int);
        proof {
            if more {
                assert(rest.take(end - from) =~= line);
                assert(rest.skip(end - from + 2) =~= text@.skip(end + 2));
                assert(lines(rest) =~= seq![line] + lines(text@.skip(end + 2)));
                assert(lines(rest).skip(1) =~= lines(text@.skip(end + 2)));
            } else {
                assert(rest =~= line);
                assert(lines(rest) =~= seq![line]);
                assert(lines(rest).skip(1) =~= Seq::<Seq<char>>::empty());
            }
            assert(lines(rest)[0] == line);
        }
        if is_content_length_line(&text, from, end) {
            let (start, stop) = trim_bounds(&text, from + 15, end);
            assert(line.skip(15) =~= text@.subrange(from + 15, end as int));
            return match parse_unsigned(&text, start, stop) {
                Ok(n) => Ok(n),
                Err(e) => Err(CodecError::InvalidContentLength(e)),
            };
        }
        if !more {
            assert(content_length_value(Seq::<Seq<char>>::empty()) is None);
            return Err(CodecError::MissingContentLength);
        }
        from = end + 2;
    }
}

/// What one attempt to read a frame comes to.
pub enum FrameOutcome {
    /// The frame is not complete yet.
    NeedMore,
    /// The headers are refused.
    Refused(CodecError),
    /// The body of a complete frame.
    Frame(Seq<u8>),
}

/// An attempt to read a frame: its outcome, the content length that is kept for the next attempt,
/// and the bytes that are left.
pub struct FrameStep {
    /// The outcome.
    pub outcome: FrameOutcome,
    /// The content length of a frame whose body is still to come.
    pub pending: Option<usize>,
    /// The bytes that are left in the buffer.
    pub rest: Seq<u8>,
}

/// Reads a body of `length` bytes from `buf`, if they are all there.
pub open spec fn body_step(length: usize, buf: Seq<u8>) -> FrameStep {
    if buf.len() < length {
        FrameStep { outcome: FrameOutcome::NeedMore, pending: Some(length), rest: buf }
    } else {
        FrameStep {
            outcome: FrameOutcome::Frame(buf.take(length as int)),
            pending: None,
            rest: buf.skip(length as int),
        }
    }
}

/// Reads a frame from `buf`: the headers first, unless their content length is `pending`, then
/// the body. Headers that are incomplete or refused stay in the buffer.
pub open spec fn frame_step(pending: Option<usize>, max: usize, buf: Seq<u8>) -> FrameStep {
    match pending {
        Some(length) => body_step(length, buf),
        None => match first_occurrence(buf, terminator()) {
            None => FrameStep { outcome: FrameOutcome::NeedMore, pending: None, rest: buf },
            Some(end) => match content_length(buf.take(end)) {
                Err(e) => FrameStep {
                    outcome: FrameOutcome::Refused(e),
                    pending: None,
                    rest: buf,
                },
                Ok(length) => if length > max {
                    FrameStep {
                        outcome: FrameOutcome::Refused(
                            CodecError::ContentTooLarge { content_length: length, max },
                        ),
                        pending: None,
                        rest: buf,
                    }
                } else {
                    body_step(length, buf.skip(end + 4))
                },
            },
        },
    }
}

/// The message that the results of reading a JSON text come to: what the whole text is read as,
/// what stands at its start, and the member names that are known to stand in it. A text that starts
/// with a value which is no message, or which repeats a member of its message, is refused as such,
/// also where more follows that value.
pub open spec fn decoded(
    read: Result<Value, serde_json::Error>,
    leading: Option<Value>,
    names: NamesView,
) -> Result<MessageView, CodecError> {
    match read {
        Ok(v) => match message_of(v, names) {
            Some(m) => Ok(m),
            None => Err(CodecError::InvalidMessage),
        },
        Err(e) => match leading {
            Some(v) => if message_of(v, names) is None {
                Err(CodecError::InvalidMessage)
            } else {
                Err(CodecError::InvalidJson(e))
            },
            None => Err(CodecError::InvalidJson(e)),
        },
    }
}

/// The message that a value stands for, unless its text repeats one of the message's members.
pub open spec fn message_of(v: Value, names: NamesView) -> Option<MessageView> {
    match MessageView::of_json(json(v)) {
        Some(m) => if m.repeats_member(names) {
            None
        } else {
            Some(m)
        },
        None => None,
    }
}

/// The message that a JSON text is read as, or why it is none. Of a repeated member the last one
/// counts.
pub open spec fn decoded_text(text: Seq<u8>) -> Result<MessageView, CodecError> {
    decoded(read_json(text), leading_json(text), NamesView::none())
}

/// The message of a result, by its view.
pub open spec fn message_in(r: Result<Message, CodecError>) -> Result<MessageView, CodecError> {
    match r {
        Ok(m) => Ok(m@),
        Err(e) => Err(e),
    }
}

/// The header of a frame whose body has `length` bytes.
pub open spec fn header_text(length: nat) -> Seq<char> {
    "Content-Length: "@ + decimal(length) + "\r\n\r\n"@
}

/// The frame around a body.
pub open spec fn frame(body: Seq<u8>) -> Seq<u8> {
    encode_utf8(header_text(body.len())) + body
}

/// The message that a value stands for, if there is one and its text repeats none of its members.
fn message_from_value(v: Value, names: &MemberNames) -> (r: Option<Message>)
    ensures
        match r {
            Some(m) => message_of(v, names@) == Some(m@),
            None => message_of(v, names@) is None,
        },
{
    match Message::from_value(v) {
        Some(m) => if m.repeats_member(names) {
            None
        } else {
            Some(m)
        },
        None => None,
    }
}

/// Turns the results of reading a JSON text into a message: what the whole text was read as, what
/// stands at its start, and the member names that stand in it, as far as they are known. What
/// stands at the start is asked for only where the whole text gave an error.
///
/// # Errors
///
/// [`CodecError::InvalidMessage`] if the text starts with a value that is no message or repeats a
/// member of its message, and [`CodecError::InvalidJson`] if it cannot be read otherwise.
pub fn message_from_json(
    read: Result<Value, serde_json::Error>,
    leading: Option<Value>,
    names: &MemberNames,
) -> (r: Result<Message, CodecError>)
    ensures
        message_in(r) == decoded(read, leading, names@),
{
    match read {
        Ok(v) => match message_from_value(v, names) {
            Some(m) => Ok(m),
            None => Err(CodecError::InvalidMessage),
        },
        Err(e) => match leading {
            Some(v) => match message_from_value(v, names) {
                Some(_) => Err(CodecError::InvalidJson(e)),
                None => Err(CodecError::InvalidMessage),
            },
            None => Err(CodecError::InvalidJson(e)),
        },
    }
}

/// Reads a message from a JSON text. `names` are the member names that stand in the text; without
/// them, the last of a repeated member counts.
///
/// # Errors
///
/// Those of [`message_from_json`].
pub fn decode_body(body: &[u8], names: &MemberNames) -> (r: Result<Message, CodecError>)
    ensures
        message_in(r) == decoded(read_json(body@), leading_json(body@), names@),
        reads_documents(body@, read_json(body@)),
{
    let read = value_from_slice(body);
    let leading = if read.is_err() {
        leading_value(body)
    } else {
        None
    };
    message_from_json(read, leading, names)
}

/// Puts a body into a frame.
pub fn frame_body(body: &[u8]) -> (r: Vec<u8>)
    ensures
        r@ == frame(body@),
{
    let mut header = join("Content-Length: ", decimal_text(body.len() as u64).as_str());
    header.append("\r\n\r\n");
    let mut bytes: Vec<u8> = Vec::new();
    bytes.extend_from_slice(header.as_str().as_bytes());
    bytes.extend_from_slice(body);
    bytes
}

/// LSP wire protocol codec implementing Content-Length framing.
///
/// Messages are written as JSON behind a Content-Length header. Reading keeps its place between
/// calls:
/// - `Ok(None)` if the header or the body is incomplete
/// - `Ok(Some(message))` when a complete message is available
///
/// A body that is longer than a maximum (default 10 MB) is refused.
#[derive(Debug)]
pub struct LspCodec {
    /// The content length parsed from headers, None if still reading headers.
    content_length: Option<usize>,
    /// Maximum allowed Content-Length value.
    max_content_length: usize,
}

impl LspCodec {
    /// The content length of a frame whose headers were read and whose body is still to come.
    pub closed spec fn pending(self) -> Option<usize> {
        self.content_length
    }

    /// The largest content length that is accepted.
    pub closed spec fn max(self) -> usize {
        self.max_content_length
    }

    /// Creates a new `LspCodec` with the default max content length (10 MB).
    #[must_use]
    pub fn new() -> (r: Self)
        ensures
            r.pending() is None,
            r.max() == 10 * 1024 * 1024,
    {
        Self { content_length: None, max_content_length: DEFAULT_MAX_CONTENT_LENGTH }
    }

    /// Creates a new `LspCodec` with a custom max content length.
    #[must_use]
    pub fn with_max_content_length(max: usize) -> (r: Self)
        ensures
            r.pending() is None,
            r.max() == max,
    {
        Self { content_length: None, max_content_length: max }
    }

    /// Returns the largest content length that is accepted.
    #[must_use]
    pub fn max_content_length(&self) -> (r: usize)
        ensures
            r == self.max(),
    {
        self.max_content_length
    }

    /// Reads the body of the next frame from `src`.
    ///
    /// Returns `Ok(None)` if the frame is incomplete. Where headers are refused, they stay in the
    /// buffer.
    ///
    /// # Errors
    ///
    /// An error if the headers give no content length, or one that is too large.
    pub fn decode_frame(&mut self, src: &mut BytesMut) -> (r: Result<Option<BytesMut>, CodecError>)
        ensures
            final(self).max() == old(self).max(),
            ({
                let step = frame_step(old(self).pending(), old(self).max(), contents(*old(src)));
                &&& final(self).pending() == step.pending
                &&& contents(*final(src)) == step.rest
                &&& match step.outcome {
                    FrameOutcome::NeedMore => r == Ok::<Option<BytesMut>, CodecError>(None),
                    FrameOutcome::Refused(e) => r == Err::<Option<BytesMut>, CodecError>(e),
                    FrameOutcome::Frame(body) => r is Ok && r->Ok_0 is Some && contents(
                        r->Ok_0->Some_0,
                    ) == body,
                }
            }),
    {
        let length: usize = match self.content_length {
            Some(length) => length,
            None => {
                let end_of_headers: [u8; 4] = [13, 10, 13, 10];
                assert(end_of_headers@ =~= terminator());
                let bytes = as_slice(src);
                let header_end: usize = match find_subsequence(bytes, end_of_headers.as_slice()) {
                    Some(header_end) => header_end,
                    None => return Ok(None),
                };
                proof {
                    lemma_first_occurrence_bounds(bytes@, terminator());
                    assert(header_end + 4 <= bytes.len());
                }
                let headers = vstd::slice::slice_subrange(bytes, 0, header_end);
                assert(headers@ =~= bytes@.take(header_end as int));
                let length: usize = match parse_content_length(headers) {
                    Ok(length) => length,
                    Err(e) => return Err(e),
                };
                if length > self.max_content_length {
                    return Err(
                        CodecError::ContentTooLarge {
                            content_length: length,
                            max: self.max_content_length,
                        },
                    );
                }
                advance(src, header_end + 4);
                self.content_length = Some(length);
                length
            },
        };
        if as_slice(src).len() < length {
            return Ok(None);
        }
        let body = split_to(src, length);
        self.content_length = None;
        Ok(Some(body))
    }

    /// Reads the next message from `src`.
    ///
    /// Returns `Ok(None)` if the message is incomplete. Where headers are refused, they stay in the
    /// buffer; a body that is no message is dropped. Of a repeated member the last counts; to have
    /// it refused, call [`LspCodec::decode_frame`] and [`decode_body`].
    ///
    /// # Errors
    ///
    /// An error if the headers give no content length, or one that is too large, or if the body is
    /// no message.
    pub fn decode(&mut self, src: &mut BytesMut) -> (r: Result<Option<Message>, CodecError>)
        ensures
            final(self).max() == old(self).max(),
            ({
                let step = frame_step(old(self).pending(), old(self).max(), contents(*old(src)));
                &&& final(self).pending() == step.pending
                &&& contents(*final(src)) == step.rest
                &&& match step.outcome {
                    FrameOutcome::NeedMore => r == Ok::<Option<Message>, CodecError>(None),
                    FrameOutcome::Refused(e) => r == Err::<Option<Message>, CodecError>(e),
                    FrameOutcome::Frame(body) => {
                        &&& reads_documents(body, read_json(body))
                        &&& match decoded_text(body) {
                            Ok(m) => r is Ok && r->Ok_0 is Some && r->Ok_0->Some_0@ == m,
                            Err(e) => r == Err::<Option<Message>, CodecError>(e),
                        }
                    },
                }
            }),
    {
        match self.decode_frame(src) {
            Ok(Some(body)) => match decode_body(as_slice(&body), &MemberNames::none()) {
                Ok(m) => Ok(Some(m)),
                Err(e) => Err(e),
            },
            Ok(None) => Ok(None),
            Err(e) => Err(e),
        }
    }
}

impl Default for LspCodec {
    fn default() -> (r: Self)
        ensures
            r.pending() is None,
            r.max() == 10 * 1024 * 1024,
    {
        Self::new()
    }
}

/// An occurrence lies inside the searched sequence.
proof fn lemma_first_occurrence_bounds<A>(haystack: Seq<A>, needle: Seq<A>)
    ensures
        first_occurrence(haystack, needle) matches Some(at) ==> occurs_first_at(
            haystack,
            needle,
            at,
        ),
{
}

impl LspCodec {
    /// Writes a message to `dst` as a frame.
    ///
    /// The frame is appended; see [`LspCodec::encode_if_it_fits`] where `dst` may be too long for
    /// that.
    ///
    /// # Errors
    ///
    /// [`CodecError::InvalidJson`] if the message cannot be written as JSON. Messages always can.
    pub fn encode(&mut self, item: Message, dst: &mut BytesMut) -> (r: Result<(), CodecError>)
        requires
            contents(*old(dst)).len() + frame(item@.text()).len() <= isize::MAX,
        ensures
            r == Ok::<(), CodecError>(()),
            *final(self) == *old(self),
            contents(*final(dst)) == contents(*old(dst)) + frame(item@.text()),
    {
        match item.to_text() {
            Ok(json) => {
                append_frame(json.as_slice(), dst);
                Ok(())
            },
            Err(e) => Err(CodecError::InvalidJson(e)),
        }
    }

    /// Writes a message to `dst` as a frame, if a buffer can be that long.
    ///
    /// Returns whether the frame was appended; where it was not, `dst` is unchanged.
    ///
    /// # Errors
    ///
    /// [`CodecError::InvalidJson`] if the message cannot be written as JSON. Messages always can.
    pub fn encode_if_it_fits(&mut self, item: Message, dst: &mut BytesMut) -> (r: Result<
        bool,
        CodecError,
    >)
        ensures
            r == Ok::<bool, CodecError>(
                contents(*old(dst)).len() + frame(item@.text()).len() <= isize::MAX,
            ),
            *final(self) == *old(self),
            contents(*final(dst)) == (if r == Ok::<bool, CodecError>(true) {
                contents(*old(dst)) + frame(item@.text())
            } else {
                contents(*old(dst))
            }),
    {
        match item.to_text() {
            Ok(json) => Ok(append_frame_if_it_fits(json.as_slice(), dst)),
            Err(e) => Err(CodecError::InvalidJson(e)),
        }
    }
}

/// Appends the frame around `body` to `dst`.
pub fn append_frame(body: &[u8], dst: &mut BytesMut)
    requires
        contents(*old(dst)).len() + frame(body@).len() <= isize::MAX,
    ensures
        contents(*final(dst)) == contents(*old(dst)) + frame(body@),
{
    extend_from_slice(dst, frame_body(body).as_slice());
}

/// Appends the frame around `body` to `dst`, if a buffer can be that long.
///
/// Returns whether the frame was appended; where it was not, `dst` is unchanged.
pub fn append_frame_if_it_fits(body: &[u8], dst: &mut BytesMut) -> (r: bool)
    ensures
        r == (contents(*old(dst)).len() + frame(body@).len() <= isize::MAX),
        contents(*final(dst)) == (if r {
            contents(*old(dst)) + frame(body@)
        } else {
            contents(*old(dst))
        }),
{
    let frame = frame_body(body);
    let limit: usize = isize::MAX as usize;
    if frame.len() > limit || as_slice(dst).len() > limit - frame.len() {
        return false;
    }
    extend_from_slice(dst, frame.as_slice());
    true
}

/// The header text of a frame is ASCII: its bytes are its characters.
proof fn lemma_header_bytes(length: nat)
    ensures
        is_ascii_chars(header_text(length)),
        is_ascii_chars("Content-Length: "@ + decimal(length)),
        encode_utf8(header_text(length)) == encode_utf8("Content-Length: "@ + decimal(length))
            + terminator(),
        encode_utf8("Content-Length: "@ + decimal(length)).len() == 16 + decimal(length).len(),
        forall|i: int|
            0 <= i < 16 + decimal(length).len() ==> #[trigger] encode_utf8(
                "Content-Length: "@ + decimal(length),
            )[i] != 13,
{
    reveal_strlit("Content-Length: ");
    reveal_strlit("\r\n\r\n");
    lemma_decimal_digits(length);
    let head = "Content-Length: "@ + decimal(length);
    let all = header_text(length);
    assert forall|i: int| 0 <= i < head.len() implies #[trigger] head[i] != '\r' && '\0' <= head[i]
        <= '\u{7f}' by {
        if i < 16 {
            assert(head[i] == "Content-Length: "@[i]);
        } else {
            assert(head[i] == decimal(length)[i - 16]);
        }
    }
    assert(all =~= head + "\r\n\r\n"@);
    assert forall|i: int| 0 <= i < all.len() implies '\0' <= #[trigger] all[i] <= '\u{7f}' by {
        if i < head.len() {
            assert(all[i] == head[i]);
        } else {
            assert(all[i] == "\r\n\r\n"@[i - head.len()]);
        }
    }
    vstd::utf8::is_ascii_chars_encode_utf8(head);
    vstd::utf8::is_ascii_chars_encode_utf8(all);
    assert(encode_utf8(all) =~= encode_utf8(head) + terminator()) by {
        assert forall|i: int| 0 <= i < all.len() implies encode_utf8(all)[i] == (encode_utf8(head)
            + terminator())[i] by {
            assert(all[i] as u8 == encode_utf8(all)[i]);
            if i < head.len() {
                assert(all[i] == head[i]);
                assert(head[i] as u8 == encode_utf8(head)[i]);
            } else {
                assert(all[i] == "\r\n\r\n"@[i - head.len()]);
            }
        }
    }
    assert forall|i: int| 0 <= i < head.len() implies #[trigger] encode_utf8(head)[i] != 13 by {
        assert(head[i] as u8 == encode_utf8(head)[i]);
        assert(head[i] != '\r');
    }
}

/// A text without line ends is one line.
proof fn lemma_single_line(text: Seq<char>)
    requires
        forall|i: int| 0 <= i < text.len() ==> #[trigger] text[i] != '\r',
    ensures
        lines(text) == seq![text],
{
    assert forall|i: int| !occurs_first_at(text, crlf(), i) by {
        if occurs_at(text, crlf(), i) {
            assert(text.subrange(i, i + 2)[0] == text[i]);
            assert(crlf()[0] == '\r');
        }
    }
}

/// The headers that a frame starts with give the length that they were written for.
proof fn lemma_header_reads_back(length: nat)
    requires
        length <= usize::MAX,
    ensures
        content_length(encode_utf8("Content-Length: "@ + decimal(length))) == Ok::<
            usize,
            CodecError,
        >(length as usize),
{
    let head = "Content-Length: "@ + decimal(length);
    reveal_strlit("Content-Length: ");
    reveal_strlit("content-length:");
    lemma_decimal_digits(length);
    vstd::utf8::encode_utf8_valid_utf8(head);
    vstd::utf8::encode_utf8_decode_utf8(head);
    assert forall|i: int| 0 <= i < head.len() implies #[trigger] head[i] != '\r' by {
        if i < 16 {
            assert(head[i] == "Content-Length: "@[i]);
        } else {
            assert(head[i] == decimal(length)[i - 16]);
        }
    }
    lemma_single_line(head);
    assert(ascii_lower_case(head.take(15)) =~= "content-length:"@) by {
        assert forall|i: int| 0 <= i < 15 implies ascii_lower_case(head.take(15))[i]
            == "content-length:"@[i] by {
            assert(head.take(15)[i] == "Content-Length: "@[i]);
        }
    }
    let value = head.skip(15);
    assert(content_length_value(lines(head)) == Some(value));
    assert(value[0] == ' ');
    assert(value.skip(1) =~= decimal(length));
    assert(is_digit_text(decimal(length)));
    lemma_trim_digits(decimal(length));
    assert(trim_start(value) == trim_start(decimal(length)));
    decimal_reads_back(length);
}

/// `text` is made of digits, of which there is at least one.
spec fn is_digit_text(text: Seq<char>) -> bool {
    text.len() > 0 && forall|i: int| 0 <= i < text.len() ==> is_digit(#[trigger] text[i])
}

/// Trimming leaves digits as they are.
proof fn lemma_trim_digits(text: Seq<char>)
    requires
        is_digit_text(text),
    ensures
        trim_start(text) == text,
        trim_end(text) == text,
{
    assert(!is_white_space(text[0]));
    assert(!is_white_space(text.last()));
}

/// The first terminator stands behind bytes that hold no CR.
#[verifier::rlimit(30)]
#[verifier::spinoff_prover]
proof fn lemma_find_terminator(head: Seq<u8>, tail: Seq<u8>)
    requires
        forall|i: int| 0 <= i < head.len() ==> #[trigger] head[i] != 13,
    ensures
        first_occurrence(head + terminator() + tail, terminator()) == Some(head.len() as int),
        (head + terminator() + tail).take(head.len() as int) == head,
        (head + terminator() + tail).skip(head.len() + 4int) == tail,
{
    let buf = head + terminator() + tail;
    let end: int = head.len() as int;
    assert(buf.take(end) =~= head);
    assert(buf.skip(end + 4) =~= tail);
    assert(occurs_first_at(buf, terminator(), end)) by {
        assert(buf.subrange(end, end + 4) =~= terminator());
        assert forall|j: int| 0 <= j < end implies !#[trigger] occurs_at(buf, terminator(), j) by {
            if occurs_at(buf, terminator(), j) {
                assert(buf.subrange(j, j + 4)[0] == buf[j]);
                assert(buf[j] == head[j]);
                assert(terminator()[0] == 13);
            }
        }
    }
    lemma_first_occurrence_is(buf, terminator(), end);
}

/// Where the headers of a frame end, what they give, and what comes behind them.
proof fn lemma_frame_headers(body: Seq<u8>, rest: Seq<u8>)
    requires
        body.len() <= usize::MAX,
    ensures
        ({
            let buf = frame(body) + rest;
            first_occurrence(buf, terminator()) matches Some(end) && content_length(buf.take(end))
                == Ok::<usize, CodecError>(body.len() as usize) && buf.skip(end + 4) == body + rest
        }),
{
    let head = encode_utf8("Content-Length: "@ + decimal(body.len()));
    lemma_header_bytes(body.len());
    lemma_header_reads_back(body.len());
    lemma_find_terminator(head, body + rest);
    assert(frame(body) + rest =~= head + terminator() + (body + rest));
}

/// Reading a frame gives its body back and leaves what follows it.
pub proof fn frame_reads_back(body: Seq<u8>, rest: Seq<u8>, max: usize)
    requires
        body.len() <= max,
    ensures
        frame_step(None, max, frame(body) + rest) == (FrameStep {
            outcome: FrameOutcome::Frame(body),
            pending: None,
            rest,
        }),
{
    lemma_frame_headers(body, rest);
    assert((body + rest).take(body.len() as int) =~= body);
    assert((body + rest).skip(body.len() as int) =~= rest);
}

/// The frames around the bodies, one behind another.
pub open spec fn frames(bodies: Seq<Seq<u8>>) -> Seq<u8>
    decreases bodies.len(),
{
    if bodies.len() == 0 {
        Seq::empty()
    } else {
        frame(bodies[0]) + frames(bodies.skip(1))
    }
}

/// A frame that is longer than the maximum is refused and stays in the buffer.
pub proof fn long_frame_is_refused(body: Seq<u8>, rest: Seq<u8>, max: usize)
    requires
        max < body.len() <= usize::MAX,
    ensures
        frame_step(None, max, frame(body) + rest) == (FrameStep {
            outcome: FrameOutcome::Refused(
                CodecError::ContentTooLarge { content_length: body.len() as usize, max },
            ),
            pending: None,
            rest: frame(body) + rest,
        }),
{
    lemma_frame_headers(body, rest);
}

/// The name of the header may be written in any case.
pub proof fn header_case_does_not_matter(a: Seq<char>, b: Seq<char>)
    requires
        ascii_lower_case(a) == ascii_lower_case(b),
    ensures
        names_content_length(a) == names_content_length(b),
{
    assert(a.len() == ascii_lower_case(a).len() == ascii_lower_case(b).len() == b.len());
    if a.len() >= 15 {
        assert(ascii_lower_case(a.take(15)) =~= ascii_lower_case(a).take(15));
        assert(ascii_lower_case(b.take(15)) =~= ascii_lower_case(b).take(15));
    }
}

/// `line` starts with the header's name and a colon, each letter in upper or lower case.
pub open spec fn is_length_header(line: Seq<char>) -> bool {
    &&& line.len() >= 15
    &&& forall|k: int|
        0 <= k < 15 ==> line[k] == #[trigger] "content-length:"@[k] || ('a' <= "content-length:"@[k]
            <= 'z' && line[k] as u32 + 32 == "content-length:"@[k] as u32)
}

/// A header line is told by its name alone, in upper and lower case.
pub proof fn header_is_told_by_its_name(line: Seq<char>)
    ensures
        names_content_length(line) <==> is_length_header(line),
{
    reveal_strlit("content-length:");
    let name = "content-length:"@;
    if line.len() >= 15 {
        let lower = ascii_lower_case(line.take(15));
        assert forall|k: int| 0 <= k < 15 implies lower[k] == ascii_lower(line[k]) by {}
        if names_content_length(line) {
            assert forall|k: int| 0 <= k < 15 implies line[k] == #[trigger] name[k] || ('a'
                <= name[k] <= 'z' && line[k] as u32 + 32 == name[k] as u32) by {
                assert(lower[k] == name[k]);
                assert(ascii_lower(line[k]) == name[k]);
            }
        }
        if is_length_header(line) {
            assert forall|k: int| 0 <= k < 15 implies lower[k] == name[k] by {
                let c = name[k];
                assert(ascii_lower(line[k]) == c);
            }
            assert(lower =~= name);
        }
    }
}

/// The first line with the header's name gives the value, whatever lines stand before it and behind
/// it.
pub proof fn first_length_header_counts(ls: Seq<Seq<char>>, i: int)
    requires
        0 <= i < ls.len(),
        is_length_header(ls[i]),
        forall|j: int| 0 <= j < i ==> !is_length_header(#[trigger] ls[j]),
    ensures
        content_length_value(ls) == Some(ls[i].skip(15)),
    decreases i,
{
    header_is_told_by_its_name(ls[0]);
    if i > 0 {
        let rest = ls.skip(1);
        assert(!is_length_header(ls[0]));
        assert(rest[i - 1] == ls[i]);
        assert forall|j: int| 0 <= j < i - 1 implies !is_length_header(#[trigger] rest[j]) by {
            assert(rest[j] == ls[j + 1]);
        }
        first_length_header_counts(rest, i - 1);
    }
}

/// Without a line that has the header's name there is no value.
pub proof fn other_headers_give_no_length(ls: Seq<Seq<char>>)
    requires
        forall|j: int| 0 <= j < ls.len() ==> !is_length_header(#[trigger] ls[j]),
    ensures
        content_length_value(ls) is None,
    decreases ls.len(),
{
    if ls.len() > 0 {
        header_is_told_by_its_name(ls[0]);
        assert(!is_length_header(ls[0]));
        let rest = ls.skip(1);
        assert forall|j: int| 0 <= j < rest.len() implies !is_length_header(#[trigger] rest[j]) by {
            assert(rest[j] == ls[j + 1]);
        }
        other_headers_give_no_length(rest);
    }
}

/// Headers give the number that stands behind the first `Content-Length:`, without the white space
/// around it, whatever other header lines stand before that line and behind it.
pub proof fn length_is_found_among_headers(
    before: Seq<Seq<char>>,
    line: Seq<char>,
    after: Seq<Seq<char>>,
)
    requires
        is_one_line(line),
        is_length_header(line),
        forall|i: int| 0 <= i < before.len() ==> is_one_line(#[trigger] before[i]),
        forall|i: int| 0 <= i < before.len() ==> !is_length_header(#[trigger] before[i]),
        forall|i: int| 0 <= i < after.len() ==> is_one_line(#[trigger] after[i]),
    ensures
        content_length(encode_utf8(text_of_lines(before + seq![line] + after))) == (
        match unsigned_value(trim(line.skip(15))) {
            Ok(n) => Ok::<usize, CodecError>(n as usize),
            Err(e) => Err(CodecError::InvalidContentLength(e)),
        }),
{
    let ls = before + seq![line] + after;
    let text = text_of_lines(ls);
    vstd::utf8::encode_utf8_valid_utf8(text);
    vstd::utf8::encode_utf8_decode_utf8(text);
    assert forall|i: int| 0 <= i < ls.len() implies is_one_line(#[trigger] ls[i]) by {
        if i < before.len() {
            assert(ls[i] == before[i]);
        } else if i > before.len() {
            assert(ls[i] == after[i - before.len() - 1]);
        }
    }
    lines_are_split_where_they_were_joined(ls);
    let at = before.len() as int;
    assert(ls[at] == line);
    assert forall|j: int| 0 <= j < at implies !is_length_header(#[trigger] ls[j]) by {
        assert(ls[j] == before[j]);
    }
    first_length_header_counts(ls, at);
}

/// Headers without a `Content-Length` line are refused for want of it.
pub proof fn headers_without_length_are_refused(ls: Seq<Seq<char>>)
    requires
        ls.len() > 0,
        forall|i: int| 0 <= i < ls.len() ==> is_one_line(#[trigger] ls[i]),
        forall|i: int| 0 <= i < ls.len() ==> !is_length_header(#[trigger] ls[i]),
    ensures
        content_length(encode_utf8(text_of_lines(ls))) == Err::<usize, CodecError>(
            CodecError::MissingContentLength,
        ),
{
    let text = text_of_lines(ls);
    vstd::utf8::encode_utf8_valid_utf8(text);
    vstd::utf8::encode_utf8_decode_utf8(text);
    lines_are_split_where_they_were_joined(ls);
    other_headers_give_no_length(ls);
}

/// `line` is a `Content-Length` header, its name in any case, with these digits, and with blanks and
/// tabs around them.
pub open spec fn is_header_for(line: Seq<char>, digits: Seq<char>) -> bool {
    exists|left: Seq<char>, right: Seq<char>|
        #![trigger left + digits + right]
        {
            &&& is_length_header(line)
            &&& line.skip(15) == left + digits + right
            &&& forall|i: int| 0 <= i < left.len() ==> #[trigger] left[i] == ' ' || left[i] == '\t'
            &&& forall|i: int|
                0 <= i < right.len() ==> #[trigger] right[i] == ' ' || right[i] == '\t'
        }
}

/// The headers give the number whose digits the first `Content-Length` header has.
pub proof fn digits_among_headers_give_the_length(
    before: Seq<Seq<char>>,
    line: Seq<char>,
    after: Seq<Seq<char>>,
    digits: Seq<char>,
)
    requires
        is_header_for(line, digits),
        digits.len() > 0,
        all_digits(digits),
        forall|i: int| 0 <= i < before.len() ==> is_one_line(#[trigger] before[i]),
        forall|i: int| 0 <= i < before.len() ==> !is_length_header(#[trigger] before[i]),
        forall|i: int| 0 <= i < after.len() ==> is_one_line(#[trigger] after[i]),
    ensures
        content_length(encode_utf8(text_of_lines(before + seq![line] + after))) == (if number_of(
            digits,
        ) <= usize::MAX {
            Ok::<usize, CodecError>(number_of(digits) as usize)
        } else {
            Err(CodecError::InvalidContentLength(LengthError::Overflow))
        }),
{
    let (left, right) = choose|left: Seq<char>, right: Seq<char>|
        #![trigger left + digits + right]
        {
            &&& is_length_header(line)
            &&& line.skip(15) == left + digits + right
            &&& forall|i: int| 0 <= i < left.len() ==> #[trigger] left[i] == ' ' || left[i] == '\t'
            &&& forall|i: int|
                0 <= i < right.len() ==> #[trigger] right[i] == ' ' || right[i] == '\t'
        };
    lemma_header_is_one_line(line, left, digits, right);
    length_is_found_among_headers(before, line, after);
    assert('0' <= digits[0] <= '9');
    assert('0' <= digits[digits.len() - 1] <= '9');
    blanks_are_trimmed(left, digits, right);
    digits_are_read_as_their_number(digits);
}

proof fn lemma_header_is_one_line(
    line: Seq<char>,
    left: Seq<char>,
    digits: Seq<char>,
    right: Seq<char>,
)
    requires
        is_length_header(line),
        line.skip(15) == left + digits + right,
        forall|i: int| 0 <= i < left.len() ==> #[trigger] left[i] == ' ' || left[i] == '\t',
        forall|i: int| 0 <= i < right.len() ==> #[trigger] right[i] == ' ' || right[i] == '\t',
        all_digits(digits),
    ensures
        is_one_line(line),
{
    reveal_strlit("content-length:");
    let name = "content-length:"@;
    let value = left + digits + right;
    assert(line.skip(15).len() == line.len() - 15);
    assert forall|i: int| 0 <= i < line.len() - 1 implies !(#[trigger] line[i] == '\r' && line[i + 1]
        == '\n') by {
        if i < 15 {
            assert(line[i] == name[i] || ('a' <= name[i] <= 'z' && line[i] as u32 + 32
                == name[i] as u32));
        } else {
            let k: int = i - 15;
            assert(line[i] == line.skip(15)[k]);
            assert(line[i] == value[k]);
            if k < left.len() {
                assert(value[k] == left[k]);
            } else if k < left.len() + digits.len() {
                assert(value[k] == (left + digits)[k]);
                assert(value[k] == digits[k - left.len()]);
            } else {
                assert(value[k] == right[k - (left + digits).len()]);
            }
        }
    }
}

/// The bytes of a blank line behind the headers: two line ends.
pub open spec fn blank_line() -> Seq<u8> {
    seq![13u8, 10u8, 13u8, 10u8]
}

/// A frame may have other headers: one with any header lines, of which the first `Content-Length`
/// gives the number `n`, is read as the `n` bytes behind the blank line, and what follows is left.
/// If they are not all there, they are waited for; if `n` is over the maximum, the frame is refused
/// and stays.
#[verifier::rlimit(60)]
#[verifier::spinoff_prover]
pub proof fn frame_with_other_headers_is_read(
    before: Seq<Seq<char>>,
    line: Seq<char>,
    after: Seq<Seq<char>>,
    digits: Seq<char>,
    tail: Seq<u8>,
    max: usize,
)
    requires
        is_header_for(line, digits),
        digits.len() > 0,
        all_digits(digits),
        number_of(digits) <= usize::MAX,
        forall|i: int|
            0 <= i < before.len() ==> is_one_line(#[trigger] before[i]) && before[i].len() > 0,
        forall|i: int| 0 <= i < before.len() ==> !is_length_header(#[trigger] before[i]),
        forall|i: int|
            0 <= i < after.len() ==> is_one_line(#[trigger] after[i]) && after[i].len() > 0,
    ensures
        ({
            let buf = encode_utf8(text_of_lines(before + seq![line] + after)) + blank_line() + tail;
            let n = number_of(digits);
            frame_step(None, max, buf) == (if n > max {
                FrameStep {
                    outcome: FrameOutcome::Refused(
                        CodecError::ContentTooLarge { content_length: n as usize, max },
                    ),
                    pending: None,
                    rest: buf,
                }
            } else if tail.len() < n {
                FrameStep {
                    outcome: FrameOutcome::NeedMore,
                    pending: Some(n as usize),
                    rest: tail,
                }
            } else {
                FrameStep {
                    outcome: FrameOutcome::Frame(tail.take(n as int)),
                    pending: None,
                    rest: tail.skip(n as int),
                }
            })
        }),
{
    let ls = before + seq![line] + after;
    let head = encode_utf8(text_of_lines(ls));
    let buf = head + blank_line() + tail;
    digits_among_headers_give_the_length(before, line, after, digits);
    let (left, right) = choose|left: Seq<char>, right: Seq<char>|
        #![trigger left + digits + right]
        {
            &&& is_length_header(line)
            &&& line.skip(15) == left + digits + right
            &&& forall|i: int| 0 <= i < left.len() ==> #[trigger] left[i] == ' ' || left[i] == '\t'
            &&& forall|i: int|
                0 <= i < right.len() ==> #[trigger] right[i] == ' ' || right[i] == '\t'
        };
    lemma_header_is_one_line(line, left, digits, right);
    assert forall|i: int| 0 <= i < ls.len() implies is_one_line(#[trigger] ls[i]) && ls[i].len()
        > 0 by {
        if i < before.len() {
            assert(ls[i] == before[i]);
        } else if i > before.len() {
            assert(ls[i] == after[i - before.len() - 1]);
        }
    }
    lemma_headers_end_at_the_blank_line(ls, tail);
    assert(buf.take(head.len() as int) =~= head);
    assert(buf.skip(head.len() + 4int) =~= tail);
}

/// Headers without a `Content-Length` line are refused and stay in the buffer.
pub proof fn frame_without_length_is_refused(ls: Seq<Seq<char>>, tail: Seq<u8>, max: usize)
    requires
        ls.len() > 0,
        forall|i: int| 0 <= i < ls.len() ==> is_one_line(#[trigger] ls[i]) && ls[i].len() > 0,
        forall|i: int| 0 <= i < ls.len() ==> !is_length_header(#[trigger] ls[i]),
    ensures
        ({
            let buf = encode_utf8(text_of_lines(ls)) + blank_line() + tail;
            frame_step(None, max, buf) == (FrameStep {
                outcome: FrameOutcome::Refused(CodecError::MissingContentLength),
                pending: None,
                rest: buf,
            })
        }),
{
    let head = encode_utf8(text_of_lines(ls));
    headers_without_length_are_refused(ls);
    lemma_headers_end_at_the_blank_line(ls, tail);
    assert((head + blank_line() + tail).take(head.len() as int) =~= head);
}

/// Headers are waited for until a blank line ends them.
pub proof fn headers_are_waited_for(buf: Seq<u8>, max: usize)
    requires
        forall|i: int| 0 <= i <= buf.len() - 4 ==> #[trigger] buf.subrange(i, i + 4) != blank_line(),
    ensures
        frame_step(None, max, buf) == (FrameStep {
            outcome: FrameOutcome::NeedMore,
            pending: None,
            rest: buf,
        }),
{
    assert(blank_line() =~= terminator());
    assert forall|i: int| !occurs_at(buf, terminator(), i) by {
        if 0 <= i <= buf.len() - 4 {
            assert(buf.subrange(i, i + 4) != blank_line());
        }
    }
    assert(forall|i: int| !occurs_first_at(buf, terminator(), i));
}

/// Headers end at the first blank line. If they give no length, they are refused for that reason and
/// stay; if it is over the maximum, they are refused as well; and otherwise the body is what follows
/// the blank line.
#[verifier::rlimit(60)]
#[verifier::spinoff_prover]
pub proof fn headers_decide_what_is_read(headers: Seq<u8>, tail: Seq<u8>, max: usize)
    requires
        forall|j: int|
            0 <= j < headers.len() ==> #[trigger] (headers + blank_line() + tail).subrange(j, j + 4)
                != blank_line(),
    ensures
        ({
            let buf = headers + blank_line() + tail;
            frame_step(None, max, buf) == (match content_length(headers) {
                Err(e) => FrameStep {
                    outcome: FrameOutcome::Refused(e),
                    pending: None,
                    rest: buf,
                },
                Ok(n) => if n > max {
                    FrameStep {
                        outcome: FrameOutcome::Refused(
                            CodecError::ContentTooLarge { content_length: n, max },
                        ),
                        pending: None,
                        rest: buf,
                    }
                } else {
                    frame_step(Some(n), max, tail)
                },
            })
        }),
{
    let buf = headers + blank_line() + tail;
    let end = headers.len() as int;
    assert(blank_line() =~= terminator());
    assert(buf.take(end) =~= headers);
    assert(buf.skip(end + 4) =~= tail);
    assert(occurs_first_at(buf, terminator(), end)) by {
        assert(buf.subrange(end, end + 4) =~= terminator());
        assert forall|j: int| 0 <= j < end implies !#[trigger] occurs_at(buf, terminator(), j) by {
            assert(buf.subrange(j, j + 4) != blank_line());
        }
    }
    lemma_first_occurrence_is(buf, terminator(), end);
}

/// Headers that are no UTF-8 text are refused with the place where they stop being one.
pub proof fn headers_that_are_no_text_are_refused(headers: Seq<u8>)
    requires
        !valid_utf8(headers),
    ensures
        content_length(headers) == Err::<usize, CodecError>(
            CodecError::HeaderEncoding(utf8_error(headers)),
        ),
{
}

/// A text that is read as a value gives the message that the value stands for, unless it repeats
/// one of its members; if there is no such message, it is refused as such. A text that cannot be
/// read is refused with the reader's error, unless it starts with a value that is no message.
pub proof fn text_gives_its_message_or_is_refused(
    v: Value,
    e: serde_json::Error,
    leading: Option<Value>,
    names: NamesView,
)
    ensures
        MessageView::of_json(json(v)) matches Some(m) ==> {
            &&& !m.repeats_member(names) ==> {
                &&& decoded(Ok(v), leading, names) == Ok::<MessageView, CodecError>(m)
                &&& decoded(Err(e), Some(v), names) == Err::<MessageView, CodecError>(
                    CodecError::InvalidJson(e),
                )
            }
            &&& m.repeats_member(names) ==> {
                &&& decoded(Ok(v), leading, names) == Err::<MessageView, CodecError>(
                    CodecError::InvalidMessage,
                )
                &&& decoded(Err(e), Some(v), names) == Err::<MessageView, CodecError>(
                    CodecError::InvalidMessage,
                )
            }
        },
        MessageView::of_json(json(v)) is None ==> {
            &&& decoded(Ok(v), leading, names) == Err::<MessageView, CodecError>(
                CodecError::InvalidMessage,
            )
            &&& decoded(Err(e), Some(v), names) == Err::<MessageView, CodecError>(
                CodecError::InvalidMessage,
            )
        },
        decoded(Err(e), None, names) == Err::<MessageView, CodecError>(CodecError::InvalidJson(e)),
{
}

/// A body whose length is known is read as soon as that many bytes are there, and waited for until
/// then.
pub proof fn pending_body_is_read(n: usize, body: Seq<u8>, rest: Seq<u8>, max: usize)
    requires
        body.len() == n,
    ensures
        frame_step(Some(n), max, body + rest) == (FrameStep {
            outcome: FrameOutcome::Frame(body),
            pending: None,
            rest,
        }),
        forall|len: int|
            0 <= len < n ==> frame_step(Some(n), max, #[trigger] body.take(len)) == (FrameStep {
                outcome: FrameOutcome::NeedMore,
                pending: Some(n),
                rest: body.take(len),
            }),
{
    assert((body + rest).take(n as int) =~= body);
    assert((body + rest).skip(n as int) =~= rest);
}

/// A frame is the header with the number of the body's bytes, a blank line, and the body.
pub proof fn frame_is_header_and_body(body: Seq<u8>)
    ensures
        exists|digits: Seq<char>| #[trigger]
            all_digits(digits) && digits.len() > 0 && number_of(digits) == body.len() && (digits[0]
                == '0' ==> digits.len() == 1) && frame(body) == encode_utf8(
                "Content-Length: "@ + digits,
            ) + blank_line() + body,
{
    lemma_header_bytes(body.len());
    numeral_stands_for_its_number(body.len());
    assert(all_digits(decimal(body.len())));
    assert(frame(body) =~= encode_utf8("Content-Length: "@ + decimal(body.len())) + blank_line()
        + body);
}

/// A character up to 127 is one byte, itself; another one is some bytes over 127.
proof fn lemma_bytes_of_char(c: char)
    ensures
        encode_scalar(c as u32).len() >= 1,
        c as u32 <= 0x7f ==> encode_scalar(c as u32) =~= seq![c as u8],
        c as u32 > 0x7f ==> forall|j: int|
            0 <= j < encode_scalar(c as u32).len() ==> #[trigger] encode_scalar(c as u32)[j] >= 0x80,
{
    let n = c as u32;
    if n <= 0x7f {
        assert((n & 0x7F) as u8 == n as u8) by (bit_vector)
            requires
                n <= 0x7f,
        ;
    } else {
        assert(0x80u8 | ((n & 0x3F) as u8) >= 0x80) by (bit_vector);
        assert(0x80u8 | (((n >> 6) & 0x3F) as u8) >= 0x80) by (bit_vector);
        assert(0x80u8 | (((n >> 12) & 0x3F) as u8) >= 0x80) by (bit_vector);
        assert(0xC0u8 | (((n >> 6) & 0x1F) as u8) >= 0x80) by (bit_vector);
        assert(0xE0u8 | (((n >> 12) & 0x0F) as u8) >= 0x80) by (bit_vector);
        assert(0xF0u8 | (((n >> 18) & 0x7) as u8) >= 0x80) by (bit_vector);
    }
}

/// Only a carriage return begins with the byte 13 or holds it, and only a line feed begins with 10.
proof fn lemma_line_end_bytes(c: char, j: int)
    requires
        0 <= j < encode_scalar(c as u32).len(),
    ensures
        encode_scalar(c as u32)[j] == 13 ==> c == '\r' && encode_scalar(c as u32).len() == 1,
        encode_scalar(c as u32)[j] == 10 ==> c == '\n' && encode_scalar(c as u32).len() == 1,
{
    lemma_bytes_of_char(c);
}

/// The bytes of two texts, one behind the other, are those of the joined text.
proof fn lemma_bytes_of_both(a: Seq<char>, b: Seq<char>)
    ensures
        encode_utf8(a + b) == encode_utf8(a) + encode_utf8(b),
    decreases a.len(),
{
    if a.len() == 0 {
        assert(a + b =~= b);
        assert(encode_utf8(a) + encode_utf8(b) =~= encode_utf8(b));
    } else {
        assert((a + b).drop_first() =~= a.drop_first() + b);
        lemma_bytes_of_both(a.drop_first(), b);
        assert(encode_utf8(a + b) =~= encode_utf8(a) + encode_utf8(b));
    }
}

/// The bytes of a line hold no line end.
#[verifier::rlimit(60)]
#[verifier::spinoff_prover]
proof fn lemma_line_bytes(line: Seq<char>)
    requires
        is_one_line(line),
    ensures
        line.len() > 0 ==> encode_utf8(line).len() > 0,
        forall|j: int|
            0 <= j < encode_utf8(line).len() - 1 ==> !(#[trigger] encode_utf8(line)[j] == 13
                && encode_utf8(line)[j + 1] == 10),
    decreases line.len(),
{
    if line.len() > 0 {
        let e = encode_scalar(line[0] as u32);
        lemma_bytes_of_char(line[0]);
        let rest = line.drop_first();
        let bytes = encode_utf8(line);
        assert forall|i: int| 0 <= i < rest.len() - 1 implies !(#[trigger] rest[i] == '\r' && rest[i
            + 1] == '\n') by {
            assert(rest[i] == line[i + 1]);
        }
        lemma_line_bytes(rest);
        assert forall|j: int| 0 <= j < bytes.len() - 1 implies !(#[trigger] bytes[j] == 13
            && bytes[j + 1] == 10) by {
            if j >= e.len() {
                assert(bytes[j] == encode_utf8(rest)[j - e.len()]);
                assert(bytes[j + 1] == encode_utf8(rest)[j - e.len() + 1]);
            } else if bytes[j] == 13 {
                assert(bytes[j] == e[j]);
                lemma_line_end_bytes(line[0], j);
                assert(bytes[j + 1] == encode_utf8(rest)[0]);
                if rest.len() > 0 {
                    lemma_bytes_of_char(rest[0]);
                    assert(encode_utf8(rest)[0] == encode_scalar(rest[0] as u32)[0]);
                    lemma_line_end_bytes(rest[0], 0);
                    assert(!(line[0] == '\r' && line[0int + 1] == '\n'));
                }
            }
        }
    }
}

/// Header lines end at the first blank line: where none of them is empty, that is the one behind
/// them.
#[verifier::rlimit(60)]
#[verifier::spinoff_prover]
proof fn lemma_headers_end_at_the_blank_line(ls: Seq<Seq<char>>, tail: Seq<u8>)
    requires
        ls.len() > 0,
        forall|i: int| 0 <= i < ls.len() ==> is_one_line(#[trigger] ls[i]) && ls[i].len() > 0,
    ensures
        first_occurrence(encode_utf8(text_of_lines(ls)) + blank_line() + tail, terminator())
            == Some(encode_utf8(text_of_lines(ls)).len() as int),
{
    let head = encode_utf8(text_of_lines(ls));
    let buf = head + blank_line() + tail;
    assert(buf.subrange(head.len() as int, head.len() as int + 4) =~= terminator());
    lemma_no_blank_line_inside(ls, tail);
    lemma_first_occurrence_is(buf, terminator(), head.len() as int);
}

#[verifier::rlimit(60)]
#[verifier::spinoff_prover]
proof fn lemma_no_blank_line_inside(ls: Seq<Seq<char>>, tail: Seq<u8>)
    requires
        ls.len() > 0,
        forall|i: int| 0 <= i < ls.len() ==> is_one_line(#[trigger] ls[i]) && ls[i].len() > 0,
    ensures
        ({
            let head = encode_utf8(text_of_lines(ls));
            let buf = head + blank_line() + tail;
            &&& forall|j: int| 0 <= j < head.len() ==> !#[trigger] occurs_at(buf, terminator(), j)
            &&& !(buf[0] == 13 && buf[1] == 10)
            &&& head.len() > 0
        }),
    decreases ls.len(),
{
    let text = text_of_lines(ls);
    let head = encode_utf8(text);
    let buf = head + blank_line() + tail;
    let first = encode_utf8(ls[0]);
    assert(is_one_line(ls[0]) && ls[0].len() > 0);
    lemma_line_bytes(ls[0]);
    assert(blank_line()[0] == 13 && blank_line()[1] == 10);
    if ls.len() == 1 {
        assert forall|j: int| 0 <= j < head.len() implies !#[trigger] occurs_at(
            buf,
            terminator(),
            j,
        ) by {
            if occurs_at(buf, terminator(), j) {
                assert(buf.subrange(j, j + 4)[0] == buf[j]);
                assert(buf.subrange(j, j + 4)[1] == buf[j + 1]);
                assert(buf[j] == first[j]);
                if j + 1 < head.len() {
                    assert(buf[j + 1] == first[j + 1]);
                }
            }
        }
        assert(buf[0] == first[0]);
        if head.len() > 1 {
            assert(buf[1] == first[1]);
            assert(!(first[0] == 13 && first[0int + 1] == 10));
        }
    } else {
        let rest = ls.skip(1);
        assert forall|i: int| 0 <= i < rest.len() implies is_one_line(#[trigger] rest[i])
            && rest[i].len() > 0 by {
            assert(rest[i] == ls[i + 1]);
        }
        lemma_no_blank_line_inside(rest, tail);
        let after = encode_utf8(text_of_lines(rest));
        let ends = seq!['\r', '\n'];
        lemma_bytes_of_both(ls[0] + ends, text_of_lines(rest));
        lemma_bytes_of_both(ls[0], ends);
        vstd::utf8::is_ascii_chars_encode_utf8(ends);
        assert(encode_utf8(ends) =~= seq![13u8, 10u8]);
        assert(head =~= first + seq![13u8, 10u8] + after);
        let inner = after + blank_line() + tail;
        assert(buf =~= first + seq![13u8, 10u8] + inner);
        let n = first.len() as int;
        assert forall|j: int| 0 <= j < head.len() implies !#[trigger] occurs_at(
            buf,
            terminator(),
            j,
        ) by {
            if occurs_at(buf, terminator(), j) {
                assert(buf.subrange(j, j + 4)[0] == buf[j]);
                assert(buf.subrange(j, j + 4)[1] == buf[j + 1]);
                assert(buf.subrange(j, j + 4)[2] == buf[j + 2]);
                assert(buf.subrange(j, j + 4)[3] == buf[j + 3]);
                if j < n {
                    assert(buf[j] == first[j]);
                    if j + 1 < n {
                        assert(buf[j + 1] == first[j + 1]);
                    }
                } else if j == n {
                    assert(buf[j + 2] == inner[0] && buf[j + 3] == inner[1]);
                } else if j > n + 1 {
                    let k = j - n - 2;
                    assert(inner.subrange(k, k + 4) =~= terminator()) by {
                        assert(inner.subrange(k, k + 4) =~= buf.subrange(j, j + 4));
                    }
                    assert(occurs_at(inner, terminator(), k));
                }
            }
        }
        assert(buf[0] == first[0]);
        if n > 1 {
            assert(buf[1] == first[1]);
            assert(!(first[0] == 13 && first[0int + 1] == 10));
        }
    }
}

/// What is found stays where it is when more is appended.
proof fn lemma_first_occurrence_append<A>(a: Seq<A>, b: Seq<A>, needle: Seq<A>)
    requires
        first_occurrence(a, needle) is Some,
    ensures
        first_occurrence(a + b, needle) == first_occurrence(a, needle),
{
    let at = first_occurrence(a, needle)->0;
    lemma_first_occurrence_bounds(a, needle);
    assert(occurs_first_at(a + b, needle, at)) by {
        assert((a + b).subrange(at, at + needle.len()) =~= a.subrange(at, at + needle.len()));
        assert forall|j: int| 0 <= j < at implies !#[trigger] occurs_at(a + b, needle, j) by {
            if occurs_at(a + b, needle, j) {
                assert((a + b).subrange(j, j + needle.len()) =~= a.subrange(j, j + needle.len()));
                assert(occurs_at(a, needle, j));
            }
        }
    }
    lemma_first_occurrence_is(a + b, needle, at);
}

/// It makes no difference where a stream is cut: reading after a first part that held no complete
/// frame, and then after the second part, comes to the same as reading both parts at once.
pub proof fn reading_in_pieces(pending: Option<usize>, max: usize, first: Seq<u8>, second: Seq<u8>)
    requires
        frame_step(pending, max, first).outcome is NeedMore,
    ensures
        ({
            let step = frame_step(pending, max, first);
            frame_step(step.pending, max, step.rest + second) == frame_step(
                pending,
                max,
                first + second,
            )
        }),
{
    match pending {
        Some(_) => {},
        None => match first_occurrence(first, terminator()) {
            None => {},
            Some(end) => {
                lemma_first_occurrence_bounds(first, terminator());
                lemma_first_occurrence_append(first, second, terminator());
                assert((first + second).take(end) =~= first.take(end));
                assert((first + second).skip(end + 4) =~= first.skip(end + 4) + second);
            },
        },
    }
}

/// What follows a complete frame, or a refused header, does not change how it is read.
pub proof fn later_bytes_do_not_matter(
    pending: Option<usize>,
    max: usize,
    first: Seq<u8>,
    second: Seq<u8>,
)
    requires
        !(frame_step(pending, max, first).outcome is NeedMore),
    ensures
        ({
            let step = frame_step(pending, max, first);
            frame_step(pending, max, first + second) == (FrameStep {
                rest: step.rest + second,
                ..step
            })
        }),
{
    match pending {
        Some(length) => {
            assert((first + second).take(length as int) =~= first.take(length as int));
            assert((first + second).skip(length as int) =~= first.skip(length as int) + second);
        },
        None => {
            let end = first_occurrence(first, terminator())->0;
            lemma_first_occurrence_bounds(first, terminator());
            lemma_first_occurrence_append(first, second, terminator());
            assert((first + second).take(end) =~= first.take(end));
            assert((first + second).skip(end + 4) =~= first.skip(end + 4) + second);
            match content_length(first.take(end)) {
                Ok(length) => {
                    let after = first.skip(end + 4);
                    if length <= max {
                        assert((after + second).take(length as int) =~= after.take(length as int));
                        assert((after + second).skip(length as int) =~= after.skip(length as int)
                            + second);
                    }
                },
                Err(_) => {},
            }
        },
    }
}

/// A frame that is not complete yet is waited for.
pub proof fn incomplete_frame_is_waited_for(body: Seq<u8>, max: usize, len: int)
    requires
        body.len() <= max,
        0 <= len < frame(body).len(),
    ensures
        frame_step(None, max, frame(body).take(len)).outcome is NeedMore,
{
    let part = frame(body).take(len);
    let missing = frame(body).skip(len);
    assert(part + missing =~= frame(body));
    assert(frame(body) + Seq::<u8>::empty() =~= frame(body));
    frame_reads_back(body, Seq::empty(), max);
    let step = frame_step(None, max, part);
    if !(step.outcome is NeedMore) {
        later_bytes_do_not_matter(None, max, part, missing);
        assert(step.rest + missing == Seq::<u8>::empty());
        assert((step.rest + missing).len() == step.rest.len() + missing.len());
    }
}

/// What repeated reading comes to: the bodies that were read, one after another, why it ended, and
/// what is kept and left.
#[verifier::ext_equal]
pub struct ReadAll {
    /// The bodies of the frames, in order.
    pub bodies: Seq<Seq<u8>>,
    /// Why headers were refused, if they were. Otherwise more bytes are needed.
    pub refused: Option<CodecError>,
    /// The content length of a frame whose body is still to come.
    pub pending: Option<usize>,
    /// The bytes that are left in the buffer.
    pub rest: Seq<u8>,
}

impl ReadAll {
    /// This, behind bodies that were read before.
    pub open spec fn after(self, bodies: Seq<Seq<u8>>) -> ReadAll {
        ReadAll { bodies: bodies + self.bodies, ..self }
    }
}

/// Reads frames from `buf` until one is incomplete or refused.
pub open spec fn read_all(pending: Option<usize>, max: usize, buf: Seq<u8>) -> ReadAll
    decreases
            buf.len(),
            (if pending is Some {
                1nat
            } else {
                0nat
            }),
{
    let step = frame_step(pending, max, buf);
    match step.outcome {
        FrameOutcome::NeedMore => ReadAll {
            bodies: Seq::empty(),
            refused: None,
            pending: step.pending,
            rest: step.rest,
        },
        FrameOutcome::Refused(e) => ReadAll {
            bodies: Seq::empty(),
            refused: Some(e),
            pending: step.pending,
            rest: step.rest,
        },
        FrameOutcome::Frame(body) => {
            proof {
                reading_makes_progress(pending, max, buf);
            }
            read_all(step.pending, max, step.rest).after(seq![body])
        },
    }
}

/// A frame that was read took bytes, or its content length was pending before and is not after.
pub proof fn reading_makes_progress(pending: Option<usize>, max: usize, buf: Seq<u8>)
    ensures
        ({
            let step = frame_step(pending, max, buf);
            step.outcome is Frame ==> {
                &&& step.pending is None
                &&& step.rest.len() <= buf.len()
                &&& pending is None ==> step.rest.len() < buf.len()
            }
        }),
{
    lemma_first_occurrence_bounds(buf, terminator());
}

/// Reads frames from pieces that arrive one after another: as far as each goes, before the next.
pub open spec fn read_pieces(
    pending: Option<usize>,
    max: usize,
    buf: Seq<u8>,
    pieces: Seq<Seq<u8>>,
) -> ReadAll
    decreases pieces.len(),
{
    let first = read_all(pending, max, buf);
    if pieces.len() == 0 {
        first
    } else {
        read_pieces(first.pending, max, first.rest + pieces[0], pieces.skip(1)).after(
            first.bodies,
        )
    }
}

/// The pieces, one behind another.
pub open spec fn joined(pieces: Seq<Seq<u8>>) -> Seq<u8>
    decreases pieces.len(),
{
    if pieces.len() == 0 {
        Seq::empty()
    } else {
        pieces[0] + joined(pieces.skip(1))
    }
}

/// Reading as far as a first part goes, and then on with the second part, comes to the same as
/// reading both parts at once.
#[verifier::rlimit(50)]
#[verifier::spinoff_prover]
pub proof fn reading_on(pending: Option<usize>, max: usize, first: Seq<u8>, second: Seq<u8>)
    ensures
        ({
            let before = read_all(pending, max, first);
            read_all(before.pending, max, before.rest + second).after(before.bodies) == read_all(
                pending,
                max,
                first + second,
            )
        }),
    decreases
            first.len(),
            (if pending is Some {
                1nat
            } else {
                0nat
            }),
{
    let before = read_all(pending, max, first);
    let step = frame_step(pending, max, first);
    let after = read_all(before.pending, max, before.rest + second);
    match step.outcome {
        FrameOutcome::NeedMore => {
            reading_in_pieces(pending, max, first, second);
            lemma_same_step_same_reading(
                step.pending,
                step.rest + second,
                pending,
                first + second,
                max,
            );
            assert(after.after(Seq::empty()) =~= after);
        },
        FrameOutcome::Refused(_) => {
            later_bytes_do_not_matter(pending, max, first, second);
            lemma_refused_stays(pending, max, first);
            assert(after.after(Seq::empty()) =~= after);
        },
        FrameOutcome::Frame(body) => {
            reading_makes_progress(pending, max, first);
            later_bytes_do_not_matter(pending, max, first, second);
            reading_on(step.pending, max, step.rest, second);
            let deeper = read_all(step.pending, max, step.rest);
            assert(after.after(seq![body] + deeper.bodies) =~= after.after(deeper.bodies).after(
                seq![body],
            ));
        },
    }
}

/// Reading depends on the first attempt alone.
proof fn lemma_same_step_same_reading(
    pending1: Option<usize>,
    buf1: Seq<u8>,
    pending2: Option<usize>,
    buf2: Seq<u8>,
    max: usize,
)
    requires
        frame_step(pending1, max, buf1) == frame_step(pending2, max, buf2),
    ensures
        read_all(pending1, max, buf1) == read_all(pending2, max, buf2),
{
}

/// Headers are refused where they start, and stay there.
proof fn lemma_refused_stays(pending: Option<usize>, max: usize, buf: Seq<u8>)
    requires
        frame_step(pending, max, buf).outcome is Refused,
    ensures
        pending is None,
        frame_step(pending, max, buf).pending is None,
        frame_step(pending, max, buf).rest == buf,
{
}

/// It makes no difference how a stream is cut: reading its pieces as they arrive comes to the same
/// as reading it at once. The same frames are read in the same order, and it ends in the same
/// state.
pub proof fn any_cutting_reads_the_same(
    pending: Option<usize>,
    max: usize,
    buf: Seq<u8>,
    pieces: Seq<Seq<u8>>,
)
    ensures
        read_pieces(pending, max, buf, pieces) == read_all(pending, max, buf + joined(pieces)),
    decreases pieces.len(),
{
    if pieces.len() == 0 {
        assert(buf + joined(pieces) =~= buf);
    } else {
        let first = read_all(pending, max, buf);
        let tail = pieces.skip(1);
        any_cutting_reads_the_same(first.pending, max, first.rest + pieces[0], tail);
        assert(first.rest + pieces[0] + joined(tail) =~= first.rest + joined(pieces));
        reading_on(pending, max, buf, joined(pieces));
    }
}

/// Frames that stand one behind another are all read, in order, and nothing is left.
pub proof fn frames_read_back_in_order(bodies: Seq<Seq<u8>>, max: usize)
    requires
        forall|i: int| 0 <= i < bodies.len() ==> (#[trigger] bodies[i]).len() <= max,
    ensures
        read_all(None, max, frames(bodies)) == (ReadAll {
            bodies,
            refused: None,
            pending: None,
            rest: Seq::empty(),
        }),
    decreases bodies.len(),
{
    if bodies.len() == 0 {
        assert forall|at: int| !occurs_first_at(Seq::<u8>::empty(), terminator(), at) by {}
        assert(bodies =~= Seq::empty());
    } else {
        let tail = bodies.skip(1);
        frame_reads_back(bodies[0], frames(tail), max);
        frames_read_back_in_order(tail, max);
        assert(seq![bodies[0]] + tail =~= bodies);
    }
}

/// The frames of messages that are written one behind another, cut into any pieces, are read as
/// those messages, in order, but for params and error data that are `null`, which read as none.
pub proof fn messages_read_back_in_order(
    messages: Seq<MessageView>,
    pieces: Seq<Seq<u8>>,
    max: usize,
)
    requires
        joined(pieces) == frames(messages.map_values(|m: MessageView| m.text())),
        forall|i: int|
            0 <= i < messages.len() ==> {
                let m = #[trigger] messages[i];
                &&& is_exact(m.to_json(), MAX_DEPTH as nat)
                &&& reads_documents(m.text(), read_json(m.text()))
                &&& m.text().len() <= max
            },
    ensures
        ({
            let all = read_pieces(None, max, Seq::empty(), pieces);
            &&& all.refused is None
            &&& all.pending is None
            &&& all.rest == Seq::<u8>::empty()
            &&& all.bodies.len() == messages.len()
            &&& forall|i: int|
                0 <= i < messages.len() ==> decoded_text(#[trigger] all.bodies[i]) == Ok::<
                    MessageView,
                    CodecError,
                >(messages[i].normal())
        }),
{
    let bodies = messages.map_values(|m: MessageView| m.text());
    any_cutting_reads_the_same(None, max, Seq::empty(), pieces);
    assert(Seq::<u8>::empty() + joined(pieces) =~= frames(bodies));
    assert forall|i: int| 0 <= i < bodies.len() implies (#[trigger] bodies[i]).len() <= max by {
        assert(bodies[i] == messages[i].text());
    }
    frames_read_back_in_order(bodies, max);
    assert forall|i: int| 0 <= i < messages.len() implies decoded_text(#[trigger] bodies[i])
        == Ok::<MessageView, CodecError>(messages[i].normal()) by {
        message_reads_back(messages[i], Seq::empty(), max);
    }
}

/// A message that is written and read back, both as JSON text and as a frame, is the same message,
/// but for params and error data that are `null`, which read as none. What follows the frame is
/// left in the buffer.
pub proof fn message_reads_back(m: MessageView, rest: Seq<u8>, max: usize)
    requires
        is_exact(m.to_json(), MAX_DEPTH as nat),
        reads_documents(m.text(), read_json(m.text())),
        m.text().len() <= max,
    ensures
        ({
            let step = frame_step(None, max, frame(m.text()) + rest);
            &&& step.pending is None
            &&& step.rest == rest
            &&& step.outcome == FrameOutcome::Frame(m.text())
            &&& decoded_text(m.text()) == Ok::<MessageView, CodecError>(m.normal())
        }),
{
    frame_reads_back(m.text(), rest, max);
    crate::message::message_doc_stands_for_json(m);
    crate::message::message_json_round_trip(m);
    assert(is_exact_doc(m.doc(), MAX_DEPTH as nat));
    assert(doc_text(m.doc()) == m.text());
}

} // verus!
