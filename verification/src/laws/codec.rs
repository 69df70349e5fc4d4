//! What calls of the codec come to: reading frames and messages, and writing them.

use vstd::prelude::*;

verus! {

use crate::buffer::contents;
use crate::codec::{
    append_frame_if_it_fits, blank_line, decode_body, digits_among_headers_give_the_length,
    find_subsequence, frame_body, frame_is_header_and_body, frame_with_other_headers_is_read,
    headers_are_waited_for, headers_decide_what_is_read, headers_without_length_are_refused,
    is_header_for, is_length_header, message_reads_back, parse_content_length,
    pending_body_is_read, CodecError, LspCodec,
};
use crate::io_error::{io_error_kind, io_error_payload, io_error_text, IoKind, IoPayload};
use crate::json::{is_exact, json, leading_json, read_json, JsonView, MAX_DEPTH};
use crate::message::{MemberNames, Message, NamesView, ResponseBody};
use crate::text::{
    all_digits, decimal, first_place_is_found, int_error, is_one_line, number_of,
    numeral_stands_for_its_number, stands_at, text_of_lines, utf8_error_text, LengthError,
};
use bytes::BytesMut;
use serde_json::Value;
use vstd::utf8::{encode_utf8, valid_utf8};

/// The place that a search gives is the first at which the needle stands, and none is given only
/// where it stands nowhere.
pub proof fn search_gives_the_first_place(haystack: &[u8], needle: &[u8], r: Option<usize>)
    requires
        needle@.len() > 0,
        call_ensures(find_subsequence, (haystack, needle), r),
    ensures
        r matches Some(at) ==> {
            &&& at + needle@.len() <= haystack@.len()
            &&& haystack@.subrange(at as int, at + needle@.len()) == needle@
        },
        forall|i: int|
            0 <= i <= haystack@.len() - needle@.len() && #[trigger] haystack@.subrange(
                i,
                i + needle@.len(),
            ) == needle@ ==> (r matches Some(at) && at <= i),
{
    first_place_is_found(haystack@, needle@);
    assert forall|i: int|
        0 <= i <= haystack@.len() - needle@.len() && #[trigger] haystack@.subrange(
            i,
            i + needle@.len(),
        ) == needle@ implies (r matches Some(at) && at <= i) by {
        assert(stands_at(haystack@, needle@, i));
    }
}

/// Headers give the number whose digits stand in the first `Content-Length` line, in whatever case
/// its name is written, with whatever blanks round the digits, and whatever other lines stand before
/// it and behind it. A number that is too large for the machine is refused.
pub proof fn headers_give_their_length(
    headers: &[u8],
    r: Result<usize, CodecError>,
    before: Seq<Seq<char>>,
    line: Seq<char>,
    after: Seq<Seq<char>>,
    digits: Seq<char>,
)
    requires
        call_ensures(parse_content_length, (headers,), r),
        headers@ == encode_utf8(text_of_lines(before + seq![line] + after)),
        is_header_for(line, digits),
        digits.len() > 0,
        all_digits(digits),
        forall|i: int| 0 <= i < before.len() ==> is_one_line(#[trigger] before[i]),
        forall|i: int| 0 <= i < before.len() ==> !is_length_header(#[trigger] before[i]),
        forall|i: int| 0 <= i < after.len() ==> is_one_line(#[trigger] after[i]),
    ensures
        number_of(digits) <= usize::MAX ==> r == Ok::<usize, CodecError>(number_of(digits) as usize),
        number_of(digits) > usize::MAX ==> r == Err::<usize, CodecError>(
            CodecError::InvalidContentLength(LengthError::Overflow),
        ),
{
    digits_among_headers_give_the_length(before, line, after, digits);
}

/// Headers that are no text, and headers without a `Content-Length` line, give no length.
pub proof fn other_headers_give_an_error(
    headers: &[u8],
    r: Result<usize, CodecError>,
    ls: Seq<Seq<char>>,
)
    requires
        call_ensures(parse_content_length, (headers,), r),
    ensures
        !valid_utf8(headers@) ==> r matches Err(CodecError::HeaderEncoding(_)),
        headers@ == encode_utf8(text_of_lines(ls)) && ls.len() > 0 && (forall|i: int|
            0 <= i < ls.len() ==> is_one_line(#[trigger] ls[i])) && (forall|i: int|
            0 <= i < ls.len() ==> !is_length_header(#[trigger] ls[i])) ==> r == Err::<
            usize,
            CodecError,
        >(CodecError::MissingContentLength),
{
    if headers@ == encode_utf8(text_of_lines(ls)) && ls.len() > 0 && (forall|i: int|
        0 <= i < ls.len() ==> is_one_line(#[trigger] ls[i])) && (forall|i: int|
        0 <= i < ls.len() ==> !is_length_header(#[trigger] ls[i])) {
        headers_without_length_are_refused(ls);
    }
}

/// The bytes are header lines, of which the first `Content-Length` line has these digits, and the
/// blank line that ends them.
pub open spec fn are_headers_for(bytes: Seq<u8>, digits: Seq<char>) -> bool {
    exists|before: Seq<Seq<char>>, line: Seq<char>, after: Seq<Seq<char>>| #[trigger]
        stand_as_headers(bytes, before, line, after, digits)
}

/// The bytes are these header lines, of which `line` is the first `Content-Length` line and has
/// these digits, and the blank line that ends them.
pub open spec fn stand_as_headers(
    bytes: Seq<u8>,
    before: Seq<Seq<char>>,
    line: Seq<char>,
    after: Seq<Seq<char>>,
    digits: Seq<char>,
) -> bool {
    &&& bytes == encode_utf8(text_of_lines(before + seq![line] + after)) + blank_line()
    &&& is_header_for(line, digits)
    &&& digits.len() > 0
    &&& all_digits(digits)
    &&& forall|i: int|
        0 <= i < before.len() ==> is_one_line(#[trigger] before[i]) && before[i].len() > 0
    &&& forall|i: int| 0 <= i < before.len() ==> !is_length_header(#[trigger] before[i])
    &&& forall|i: int|
        0 <= i < after.len() ==> is_one_line(#[trigger] after[i]) && after[i].len() > 0
}

/// A frame whose headers give the length of its body, whatever other headers it has, is read as
/// that body. What follows it stays in the buffer.
#[verifier::rlimit(60)]
#[verifier::spinoff_prover]
pub proof fn frame_is_decoded(
    codec: &mut LspCodec,
    src: &mut BytesMut,
    r: Result<Option<BytesMut>, CodecError>,
    headers: Seq<u8>,
    digits: Seq<char>,
    body: Seq<u8>,
    rest: Seq<u8>,
)
    requires
        call_ensures(LspCodec::decode_frame, (codec, src), r),
        old(codec).pending() is None,
        contents(*old(src)) == headers + body + rest,
        are_headers_for(headers, digits),
        number_of(digits) == body.len(),
        body.len() <= old(codec).max(),
    ensures
        r matches Ok(Some(got)) && contents(got) == body,
        contents(*final(src)) == rest,
        final(codec).pending() is None,
        final(codec).max() == old(codec).max(),
{
    let (before, line, after) = choose|
        before: Seq<Seq<char>>,
        line: Seq<char>,
        after: Seq<Seq<char>>,
    | #[trigger]
        stand_as_headers(headers, before, line, after, digits);
    let tail = body + rest;
    frame_with_other_headers_is_read(before, line, after, digits, tail, old(codec).max());
    assert(headers + body + rest =~= headers + tail);
    assert(tail.take(body.len() as int) =~= body);
    assert(tail.skip(body.len() as int) =~= rest);
}

/// A frame of which a first part has arrived is waited for, and read when the rest of it has.
#[verifier::rlimit(60)]
#[verifier::spinoff_prover]
pub proof fn split_frame_is_decoded(
    codec: &mut LspCodec,
    src: &mut BytesMut,
    r: Result<Option<BytesMut>, CodecError>,
    next_codec: &mut LspCodec,
    next_src: &mut BytesMut,
    next: Result<Option<BytesMut>, CodecError>,
    headers: Seq<u8>,
    digits: Seq<char>,
    first: Seq<u8>,
    second: Seq<u8>,
    rest: Seq<u8>,
)
    requires
        call_ensures(LspCodec::decode_frame, (codec, src), r),
        old(codec).pending() is None,
        contents(*old(src)) == headers + first,
        are_headers_for(headers, digits),
        number_of(digits) == first.len() + second.len(),
        second.len() > 0,
        number_of(digits) <= old(codec).max(),
        call_ensures(LspCodec::decode_frame, (next_codec, next_src), next),
        *old(next_codec) == *final(codec),
        contents(*old(next_src)) == contents(*final(src)) + second + rest,
    ensures
        r == Ok::<Option<BytesMut>, CodecError>(None),
        next matches Ok(Some(got)) && contents(got) == first + second,
        contents(*final(next_src)) == rest,
        final(next_codec).pending() is None,
        final(next_codec).max() == old(codec).max(),
{
    let (before, line, after) = choose|
        before: Seq<Seq<char>>,
        line: Seq<char>,
        after: Seq<Seq<char>>,
    | #[trigger]
        stand_as_headers(headers, before, line, after, digits);
    frame_with_other_headers_is_read(before, line, after, digits, first, old(codec).max());
    let n = number_of(digits) as usize;
    pending_body_is_read(n, first + second, rest, old(codec).max());
    assert(contents(*final(src)) + second + rest =~= first + second + rest);
}

/// A frame that is longer than the maximum is refused and stays in the buffer.
#[verifier::rlimit(60)]
#[verifier::spinoff_prover]
pub proof fn long_frame_is_not_decoded(
    codec: &mut LspCodec,
    src: &mut BytesMut,
    r: Result<Option<BytesMut>, CodecError>,
    headers: Seq<u8>,
    digits: Seq<char>,
    rest: Seq<u8>,
)
    requires
        call_ensures(LspCodec::decode_frame, (codec, src), r),
        old(codec).pending() is None,
        contents(*old(src)) == headers + rest,
        are_headers_for(headers, digits),
        old(codec).max() < number_of(digits) <= usize::MAX,
    ensures
        r == Err::<Option<BytesMut>, CodecError>(
            CodecError::ContentTooLarge {
                content_length: number_of(digits) as usize,
                max: old(codec).max(),
            },
        ),
        contents(*final(src)) == contents(*old(src)),
        final(codec).pending() is None,
        final(codec).max() == old(codec).max(),
{
    let (before, line, after) = choose|
        before: Seq<Seq<char>>,
        line: Seq<char>,
        after: Seq<Seq<char>>,
    | #[trigger]
        stand_as_headers(headers, before, line, after, digits);
    frame_with_other_headers_is_read(before, line, after, digits, rest, old(codec).max());
}

/// Until a blank line ends the headers nothing is read, and nothing leaves the buffer.
pub proof fn headers_without_end_are_not_decoded(
    codec: &mut LspCodec,
    src: &mut BytesMut,
    r: Result<Option<BytesMut>, CodecError>,
)
    requires
        call_ensures(LspCodec::decode_frame, (codec, src), r),
        old(codec).pending() is None,
        forall|i: int|
            0 <= i <= contents(*old(src)).len() - 4 ==> #[trigger] contents(*old(src)).subrange(
                i,
                i + 4,
            ) != blank_line(),
    ensures
        r == Ok::<Option<BytesMut>, CodecError>(None),
        contents(*final(src)) == contents(*old(src)),
        final(codec).pending() is None,
        final(codec).max() == old(codec).max(),
{
    headers_are_waited_for(contents(*old(src)), old(codec).max());
}

/// A frame is a header line with the number of the body's bytes, a blank line, and the body.
pub proof fn body_is_framed(body: &[u8], r: Vec<u8>)
    requires
        call_ensures(frame_body, (body,), r),
    ensures
        exists|digits: Seq<char>| #[trigger]
            all_digits(digits) && digits.len() > 0 && number_of(digits) == body@.len() && (digits[0]
                == '0' ==> digits.len() == 1) && r@ == encode_utf8("Content-Length: "@ + digits)
                + blank_line() + body@,
{
    frame_is_header_and_body(body@);
}

/// The option holds the same JSON value, where `null` is the same as none.
pub open spec fn same_value(a: Option<Value>, b: Option<Value>) -> bool {
    match a {
        Some(v) => if json(v) == JsonView::Null {
            b is None
        } else {
            b matches Some(w) && json(w) == json(v)
        },
        None => b is None,
    }
}

/// The two messages are of one kind and hold the same, where `null` params and `null` error data
/// are the same as none.
pub open spec fn same_message(a: Message, b: Message) -> bool {
    match (a, b) {
        (Message::Request(a), Message::Request(b)) => {
            &&& a.jsonrpc@ == b.jsonrpc@
            &&& a.id@ == b.id@
            &&& a.method@ == b.method@
            &&& same_value(a.params, b.params)
        },
        (Message::Response(a), Message::Response(b)) => {
            &&& a.jsonrpc@ == b.jsonrpc@
            &&& match (a.id, b.id) {
                (Some(a), Some(b)) => a@ == b@,
                (None, None) => true,
                _ => false,
            }
            &&& match (a.body, b.body) {
                (ResponseBody::Result(a), ResponseBody::Result(b)) => json(a) == json(b),
                (ResponseBody::Error(a), ResponseBody::Error(b)) => a.code == b.code && a.message@
                    == b.message@ && same_value(a.data, b.data),
                _ => false,
            }
        },
        (Message::Notification(a), Message::Notification(b)) => {
            &&& a.jsonrpc@ == b.jsonrpc@
            &&& a.method@ == b.method@
            &&& same_value(a.params, b.params)
        },
        _ => false,
    }
}

/// A message that was written to a buffer is read from it as the same message, and what follows it
/// stays. What stood in the buffer before it was written stays too.
#[verifier::rlimit(60)]
#[verifier::spinoff_prover]
pub proof fn message_is_written_and_read(
    writer: &mut LspCodec,
    message: Message,
    dst: &mut BytesMut,
    written: Result<(), CodecError>,
    reader: &mut LspCodec,
    src: &mut BytesMut,
    read: Result<Option<Message>, CodecError>,
    rest: Seq<u8>,
)
    requires
        call_ensures(LspCodec::encode, (writer, message, dst), written),
        call_ensures(LspCodec::decode, (reader, src), read),
        contents(*final(dst)) + rest == contents(*old(dst)) + contents(*old(src)),
        old(reader).pending() is None,
        message@.text().len() <= old(reader).max(),
        is_exact(message@.to_json(), MAX_DEPTH as nat),
    ensures
        written is Ok,
        contents(*final(dst)).take(contents(*old(dst)).len() as int) == contents(*old(dst)),
        read matches Ok(Some(got)) && same_message(message, got),
        contents(*final(src)) == rest,
        final(reader).pending() is None,
{
    let before = contents(*old(dst));
    let frame = crate::codec::frame(message@.text());
    assert(contents(*final(dst)) =~= before + frame);
    assert(contents(*final(dst)).take(before.len() as int) =~= before);
    assert(contents(*old(src)) =~= frame + rest) by {
        assert((before + contents(*old(src))).skip(before.len() as int) =~= contents(*old(src)));
        assert((before + frame + rest).skip(before.len() as int) =~= frame + rest);
    }
    crate::codec::frame_reads_back(message@.text(), rest, old(reader).max());
    message_reads_back(message@, rest, old(reader).max());
}

/// Headers that give no length are refused for the reason that parsing them gives, and stay in the
/// buffer.
#[verifier::rlimit(60)]
#[verifier::spinoff_prover]
pub proof fn bad_headers_are_not_decoded(
    codec: &mut LspCodec,
    src: &mut BytesMut,
    r: Result<Option<BytesMut>, CodecError>,
    headers: &[u8],
    parsed: Result<usize, CodecError>,
    tail: Seq<u8>,
)
    requires
        call_ensures(LspCodec::decode_frame, (codec, src), r),
        call_ensures(parse_content_length, (headers,), parsed),
        old(codec).pending() is None,
        contents(*old(src)) == headers@ + blank_line() + tail,
        forall|j: int|
            0 <= j < headers@.len() ==> #[trigger] (headers@ + blank_line() + tail).subrange(
                j,
                j + 4,
            ) != blank_line(),
    ensures
        parsed matches Err(e) ==> {
            &&& r == Err::<Option<BytesMut>, CodecError>(e)
            &&& contents(*final(src)) == contents(*old(src))
            &&& final(codec).pending() is None
        },
        parsed matches Ok(n) ==> (r is Err <==> n > old(codec).max()),
        final(codec).max() == old(codec).max(),
{
    headers_decide_what_is_read(headers@, tail, old(codec).max());
}

/// Reading a message is reading a frame and then its body: with the same buffer, either nothing is
/// complete yet, or both refuse the headers for the same reason, or the body of the frame gives the
/// message, or the reason why it is none. The same bytes are left.
pub proof fn message_is_decoded_from_its_frame(
    codec: &mut LspCodec,
    src: &mut BytesMut,
    r: Result<Option<Message>, CodecError>,
    frame_codec: &mut LspCodec,
    frame_src: &mut BytesMut,
    framed: Result<Option<BytesMut>, CodecError>,
    body: &[u8],
    names: &MemberNames,
    decoded: Result<Message, CodecError>,
)
    requires
        call_ensures(LspCodec::decode, (codec, src), r),
        call_ensures(LspCodec::decode_frame, (frame_codec, frame_src), framed),
        old(frame_codec).pending() == old(codec).pending(),
        old(frame_codec).max() == old(codec).max(),
        contents(*old(frame_src)) == contents(*old(src)),
        framed matches Ok(Some(b)) ==> body@ == contents(b),
        names@.message.len() == 0,
        names@.error.len() == 0,
        call_ensures(decode_body, (body, names), decoded),
    ensures
        framed matches Err(e) ==> r == Err::<Option<Message>, CodecError>(e),
        framed matches Ok(None) ==> r == Ok::<Option<Message>, CodecError>(None),
        framed matches Ok(Some(_)) ==> match decoded {
            Ok(m) => r matches Ok(Some(got)) && got@ == m@,
            Err(e) => r == Err::<Option<Message>, CodecError>(e),
        },
        contents(*final(src)) == contents(*final(frame_src)),
        final(codec).pending() == final(frame_codec).pending(),
        final(codec).max() == old(codec).max(),
{
    assert(names@ =~= NamesView::none());
}

/// A body that is read as a value gives the message that the value is read as, unless it repeats a
/// member of that message. What is no message, or repeats a member, is refused as such, and a body
/// that cannot be read is refused with the reader's error, unless it starts with a value that is no
/// message.
pub proof fn body_gives_its_message(
    body: &[u8],
    names: &MemberNames,
    r: Result<Message, CodecError>,
    v: Value,
    read: Option<Message>,
    repeats: bool,
)
    requires
        call_ensures(decode_body, (body, names), r),
        call_ensures(Message::from_value, (v,), read),
        read matches Some(m) ==> call_ensures(Message::repeats_member, (&m, names), repeats),
    ensures
        read_json(body@) == Ok::<Value, serde_json::Error>(v) ==> match read {
            Some(m) => if repeats {
                r == Err::<Message, CodecError>(CodecError::InvalidMessage)
            } else {
                r matches Ok(got) && got@ == m@
            },
            None => r == Err::<Message, CodecError>(CodecError::InvalidMessage),
        },
        read_json(body@) matches Err(e) ==> {
            &&& leading_json(body@) is None ==> r == Err::<Message, CodecError>(
                CodecError::InvalidJson(e),
            )
            &&& leading_json(body@) == Some(v) ==> r == Err::<Message, CodecError>(
                if read is None || repeats {
                    CodecError::InvalidMessage
                } else {
                    CodecError::InvalidJson(e)
                },
            )
        },
{
}

/// A frame is appended to the buffer, behind what stands there, if a buffer can be that long, and
/// otherwise the buffer stays as it is. The result tells which.
pub proof fn frame_is_appended_if_it_fits(
    body: &[u8],
    dst: &mut BytesMut,
    r: bool,
    framed: Vec<u8>,
)
    requires
        call_ensures(append_frame_if_it_fits, (body, dst), r),
        call_ensures(frame_body, (body,), framed),
    ensures
        r <==> contents(*old(dst)).len() + framed@.len() <= isize::MAX,
        r ==> contents(*final(dst)) == contents(*old(dst)) + framed@,
        !r ==> contents(*final(dst)) == contents(*old(dst)),
{
}

/// Writing a message appends the frame around its text, and leaves the codec as it is.
pub proof fn message_is_appended_as_a_frame(
    codec: &mut LspCodec,
    message: Message,
    dst: &mut BytesMut,
    r: Result<(), CodecError>,
    text: Result<Vec<u8>, serde_json::Error>,
    body: &[u8],
    framed: Vec<u8>,
)
    requires
        call_ensures(LspCodec::encode, (codec, message, dst), r),
        call_ensures(Message::to_text, (&message,), text),
        text is Ok && body@ == text->Ok_0@,
        call_ensures(frame_body, (body,), framed),
    ensures
        r is Ok,
        contents(*final(dst)) == contents(*old(dst)) + framed@,
        *final(codec) == *old(codec),
{
}

/// Writing a message if it fits does the same, where a buffer can be that long, and nothing
/// otherwise.
pub proof fn message_is_appended_if_it_fits(
    codec: &mut LspCodec,
    message: Message,
    dst: &mut BytesMut,
    r: Result<bool, CodecError>,
    text: Result<Vec<u8>, serde_json::Error>,
    body: &[u8],
    framed: Vec<u8>,
)
    requires
        call_ensures(LspCodec::encode_if_it_fits, (codec, message, dst), r),
        call_ensures(Message::to_text, (&message,), text),
        text is Ok && body@ == text->Ok_0@,
        call_ensures(frame_body, (body,), framed),
    ensures
        r matches Ok(done) && (done <==> contents(*old(dst)).len() + framed@.len() <= isize::MAX),
        r == Ok::<bool, CodecError>(true) ==> contents(*final(dst)) == contents(*old(dst))
            + framed@,
        r == Ok::<bool, CodecError>(false) ==> contents(*final(dst)) == contents(*old(dst)),
        *final(codec) == *old(codec),
{
}

/// A new codec awaits headers, and accepts bodies of 10 MB, or of the maximum that it was given.
pub proof fn new_codec_awaits_headers(
    codec: LspCodec,
    limited: LspCodec,
    max: usize,
    told: usize,
)
    requires
        call_ensures(LspCodec::new, (), codec),
        call_ensures(LspCodec::with_max_content_length, (max,), limited),
        call_ensures(LspCodec::max_content_length, (&limited,), told),
    ensures
        codec.pending() is None,
        codec.max() == 10 * 1024 * 1024,
        limited.pending() is None,
        limited.max() == max,
        told == max,
{
}

/// Every error of the codec has its message, as far as that is known.
pub proof fn codec_error_has_its_message(e: CodecError, r: String)
    requires
        call_ensures(CodecError::to_string, (&e,), r),
    ensures
        e is MissingContentLength ==> r@ == "Missing Content-Length header"@,
        e is InvalidMessage ==> r@ == "data did not match any variant of untagged enum Message"@,
        e matches CodecError::InvalidContentLength(LengthError::Empty) ==> r@
            == "cannot parse integer from empty string"@,
        e matches CodecError::InvalidContentLength(LengthError::InvalidDigit) ==> r@
            == "invalid digit found in string"@,
        e matches CodecError::InvalidContentLength(LengthError::Overflow) ==> r@
            == "number too large to fit in target type"@,
        e matches CodecError::HeaderEncoding(u) ==> r@ == utf8_error_text(u),
        e matches CodecError::ContentTooLarge { content_length: n, max } ==> exists|
            a: Seq<char>,
            b: Seq<char>,
        |
            #![trigger all_digits(a), all_digits(b)]
            all_digits(a) && a.len() > 0 && number_of(a) == n && all_digits(b) && b.len() > 0
                && number_of(b) == max && r@ == "Content-Length "@ + a + " exceeds maximum "@ + b,
{
    if let CodecError::ContentTooLarge { content_length: n, max } = e {
        numeral_stands_for_its_number(n as nat);
        numeral_stands_for_its_number(max as nat);
        assert(all_digits(decimal(n as nat)) && all_digits(decimal(max as nat)));
    }
}

/// As an I/O error, every error of the codec is of kind `InvalidData` and has its message, which for
/// the errors of a reader is that reader's.
pub proof fn codec_error_is_invalid_data(e: CodecError, r: std::io::Error, shown: String)
    requires
        call_ensures(<std::io::Error as From<CodecError>>::from, (e,), r),
        call_ensures(CodecError::to_string, (&e,), shown),
    ensures
        io_error_kind(r) == Some(IoKind::InvalidData),
        e matches CodecError::HeaderEncoding(u) ==> io_error_payload(r) == Some(IoPayload::Utf8(u)),
        e matches CodecError::InvalidJson(j) ==> io_error_payload(r) == Some(IoPayload::Json(j)),
        e matches CodecError::InvalidContentLength(l) ==> (io_error_payload(r) matches Some(
            IoPayload::Integer(p),
        ) && int_error(p) == Some(l)),
        e is MissingContentLength || e is ContentTooLarge || e is InvalidMessage ==> io_error_text(r)
            == Some(shown@),
{
}

} // verus!
