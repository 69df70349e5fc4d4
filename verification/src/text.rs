//! Text helpers: searching, line splitting, trimming, and decimal numerals.

use vstd::prelude::*;

verus! {

/// `needle` stands in `haystack` at index `at`.
pub open spec fn occurs_at<A>(haystack: Seq<A>, needle: Seq<A>, at: int) -> bool {
    0 <= at <= haystack.len() - needle.len() && haystack.subrange(at, at + needle.len()) == needle
}

/// `at` is the smallest index at which `needle` stands in `haystack`.
pub open spec fn occurs_first_at<A>(haystack: Seq<A>, needle: Seq<A>, at: int) -> bool {
    &&& occurs_at(haystack, needle, at)
    &&& forall|j: int| 0 <= j < at ==> !#[trigger] occurs_at(haystack, needle, j)
}

/// Where `needle` first stands in `haystack`, if it does.
pub open spec fn first_occurrence<A>(haystack: Seq<A>, needle: Seq<A>) -> Option<int> {
    if exists|at: int| occurs_first_at(haystack, needle, at) {
        Some(choose|at: int| occurs_first_at(haystack, needle, at))
    } else {
        None
    }
}

/// An index at which `needle` first stands is the one that `first_occurrence` gives.
pub proof fn lemma_first_occurrence_is<A>(haystack: Seq<A>, needle: Seq<A>, at: int)
    requires
        occurs_first_at(haystack, needle, at),
    ensures
        first_occurrence(haystack, needle) == Some(at),
{
    let other = choose|i: int| occurs_first_at(haystack, needle, i);
    assert(occurs_first_at(haystack, needle, other));
    if other < at {
        assert(!occurs_at(haystack, needle, other));
    } else if at < other {
        assert(!occurs_at(haystack, needle, at));
    }
}

/// `std::str::Utf8Error`, carried through as it is.
#[verifier::external_type_specification]
#[verifier::external_body]
pub struct ExUtf8Error(std::str::Utf8Error);

/// The error that `std::str::from_utf8` gives for bytes that are not UTF-8.
pub uninterp spec fn utf8_error(bytes: Seq<u8>) -> std::str::Utf8Error;

/// The message that `std::str::Utf8Error` displays.
pub uninterp spec fn utf8_error_text(e: std::str::Utf8Error) -> Seq<char>;

/// `std::str::from_utf8` reads bytes that are UTF-8 as the text that they encode, and gives an
/// error for any other bytes.
#[verifier::external_body]
pub(crate) fn str_from_utf8(bytes: &[u8]) -> (r: Result<&str, std::str::Utf8Error>)
    ensures
        match r {
            Ok(text) => vstd::utf8::valid_utf8(bytes@) && text@ == vstd::utf8::decode_utf8(bytes@),
            Err(e) => !vstd::utf8::valid_utf8(bytes@) && e == utf8_error(bytes@),
        },
{
    std::str::from_utf8(bytes)
}

/// `Display` of `std::str::Utf8Error`.
#[verifier::external_body]
pub(crate) fn utf8_error_to_text(e: &std::str::Utf8Error) -> (r: String)
    ensures
        r@ == utf8_error_text(*e),
{
    e.to_string()
}

/// Tests whether two texts have the same characters.
pub(crate) fn text_eq(a: &str, b: &str) -> (r: bool)
    ensures
        r == (a@ == b@),
{
    let left = a.as_bytes();
    let right = b.as_bytes();
    proof {
        vstd::utf8::encode_utf8_decode_utf8(a@);
        vstd::utf8::encode_utf8_decode_utf8(b@);
    }
    if left.len() != right.len() {
        return false;
    }
    let mut at: usize = 0;
    while at < left.len()
        invariant
            at <= left@.len() == right@.len(),
            left@ == vstd::utf8::encode_utf8(a@),
            right@ == vstd::utf8::encode_utf8(b@),
            left@.take(at as int) == right@.take(at as int),
        decreases left@.len() - at,
    {
        if left[at] != right[at] {
            return false;
        }
        assert(left@.take(at + 1) =~= left@.take(at as int).push(left@[at as int]));
        assert(right@.take(at + 1) =~= right@.take(at as int).push(right@[at as int]));
        at += 1;
    }
    assert(left@.take(at as int) =~= left@);
    assert(right@.take(at as int) =~= right@);
    true
}

/// `a` followed by `b`.
pub(crate) fn join(a: &str, b: &str) -> (r: String)
    ensures
        r@ == a@ + b@,
{
    let mut text = a.to_owned();
    text.append(b);
    text
}

/// The two characters that end a header line.
pub open spec fn crlf() -> Seq<char> {
    seq!['\r', '\n']
}

/// The parts of `text` between its line ends, as splitting on CR LF gives them.
pub open spec fn lines(text: Seq<char>) -> Seq<Seq<char>>
    decreases text.len(),
{
    match first_occurrence(text, crlf()) {
        Some(at) => if 0 <= at <= text.len() - 2 {
            seq![text.take(at)] + lines(text.skip(at + 2))
        } else {
            seq![text]
        },
        None => seq![text],
    }
}

/// The first CR LF of `text` at or after `from`, or the end of `text`.
pub(crate) fn find_line_end(text: &Vec<char>, from: usize) -> (r: (usize, bool))
    requires
        from <= text@.len(),
    ensures
        from <= r.0 <= text@.len(),
        r.1 ==> first_occurrence(text@.skip(from as int), crlf()) == Some(r.0 - from) && r.0
            <= text@.len() - 2,
        !r.1 ==> first_occurrence(text@.skip(from as int), crlf()) is None && r.0 == text@.len(),
{
    let ghost rest = text@.skip(from as int);
    let mut at: usize = from;
    while at < text.len()
        invariant
            from <= at <= text@.len(),
            rest == text@.skip(from as int),
            forall|j: int| 0 <= j < at - from ==> !#[trigger] occurs_at(rest, crlf(), j),
        decreases text@.len() - at,
    {
        if text[at] == '\r' && at + 1 < text.len() && text[at + 1] == '\n' {
            proof {
                assert(rest.subrange(at - from, at - from + 2) =~= crlf());
                lemma_first_occurrence_is(rest, crlf(), at - from);
            }
            return (at, true);
        }
        assert(!occurs_at(rest, crlf(), at - from)) by {
            if occurs_at(rest, crlf(), at - from) {
                let part = rest.subrange(at - from, at - from + 2);
                assert(part[0] == text@[at as int] && part[1] == text@[at + 1]);
                assert(crlf()[0] == '\r' && crlf()[1] == '\n');
            }
        }
        at += 1;
    }
    assert(forall|i: int| !occurs_first_at(rest, crlf(), i));
    (at, false)
}

/// The characters that Unicode calls white space.
pub open spec fn is_white_space(c: char) -> bool {
    ||| '\u{9}' <= c <= '\u{d}'
    ||| c == ' '
    ||| c == '\u{85}'
    ||| c == '\u{a0}'
    ||| c == '\u{1680}'
    ||| '\u{2000}' <= c <= '\u{200a}'
    ||| c == '\u{2028}'
    ||| c == '\u{2029}'
    ||| c == '\u{202f}'
    ||| c == '\u{205f}'
    ||| c == '\u{3000}'
}

/// Tests whether `c` is white space.
pub(crate) fn white_space(c: char) -> (r: bool)
    ensures
        r == is_white_space(c),
{
    match c {
        '\u{9}'..='\u{d}' | ' ' | '\u{85}' | '\u{a0}' | '\u{1680}' => true,
        '\u{2000}'..='\u{200a}' | '\u{2028}' | '\u{2029}' | '\u{202f}' => true,
        '\u{205f}' | '\u{3000}' => true,
        _ => false,
    }
}

/// `text` without the white space before its first other character.
pub open spec fn trim_start(text: Seq<char>) -> Seq<char>
    decreases text.len(),
{
    if text.len() > 0 && is_white_space(text[0]) {
        trim_start(text.skip(1))
    } else {
        text
    }
}

/// `text` without the white space behind its last other character.
pub open spec fn trim_end(text: Seq<char>) -> Seq<char>
    decreases text.len(),
{
    if text.len() > 0 && is_white_space(text.last()) {
        trim_end(text.drop_last())
    } else {
        text
    }
}

/// `text` without the white space at both its ends.
pub open spec fn trim(text: Seq<char>) -> Seq<char> {
    trim_end(trim_start(text))
}

/// The bounds of `text[from..to]` once the white space at both ends is left out.
pub(crate) fn trim_bounds(text: &Vec<char>, from: usize, to: usize) -> (r: (usize, usize))
    requires
        from <= to <= text@.len(),
    ensures
        from <= r.0 <= r.1 <= to,
        text@.subrange(r.0 as int, r.1 as int) == trim(text@.subrange(from as int, to as int)),
{
    let ghost part = text@.subrange(from as int, to as int);
    let mut start: usize = from;
    while start < to && white_space(text[start])
        invariant
            from <= start <= to <= text@.len(),
            trim_start(part) == trim_start(text@.subrange(start as int, to as int)),
        ensures
            from <= start <= to,
            trim_start(part) == text@.subrange(start as int, to as int),
        decreases to - start,
    {
        assert(text@.subrange(start as int, to as int).skip(1) =~= text@.subrange(
            start + 1,
            to as int,
        ));
        start += 1;
    }
    let mut end: usize = to;
    while start < end && white_space(text[end - 1])
        invariant
            from <= start <= end <= to <= text@.len(),
            trim_end(trim_start(part)) == trim_end(text@.subrange(start as int, end as int)),
        ensures
            from <= start <= end <= to,
            trim_end(trim_start(part)) == text@.subrange(start as int, end as int),
        decreases end - start,
    {
        assert(text@.subrange(start as int, end as int).drop_last() =~= text@.subrange(
            start as int,
            end - 1,
        ));
        end -= 1;
    }
    (start, end)
}

/// The lower-case form of an ASCII letter; any other character as it is.
pub open spec fn ascii_lower(c: char) -> char {
    if 'A' <= c <= 'Z' {
        (c as u32 + 32) as char
    } else {
        c
    }
}

/// `text` with its ASCII letters in lower case.
pub open spec fn ascii_lower_case(text: Seq<char>) -> Seq<char> {
    text.map_values(|c: char| ascii_lower(c))
}

/// The decimal digit of value `d`.
pub open spec fn digit(d: nat) -> char {
    (('0' as u32) + d) as char
}

/// `c` is one of the ten decimal digits.
pub open spec fn is_digit(c: char) -> bool {
    '0' <= c <= '9'
}

/// The value of the decimal digit `c`.
pub open spec fn digit_value(c: char) -> nat {
    (c as u32 - '0' as u32) as nat
}

/// The decimal numeral of `n`, without leading zeros.
pub open spec fn decimal(n: nat) -> Seq<char>
    decreases n,
{
    if n < 10 {
        seq![digit(n)]
    } else {
        decimal(n / 10).push(digit(n % 10))
    }
}

/// The decimal numeral of `n`, with a minus sign where `n` is negative.
pub open spec fn signed_decimal(n: int) -> Seq<char> {
    if n < 0 {
        seq!['-'] + decimal((-n) as nat)
    } else {
        decimal(n as nat)
    }
}

/// Writes `n` in decimal.
pub(crate) fn decimal_text(n: u64) -> (r: String)
    ensures
        r@ == decimal(n as nat),
    decreases n,
{
    let mut text = if n < 10 {
        String::new()
    } else {
        decimal_text(n / 10)
    };
    let last: u64 = n % 10;
    proof {
        reveal_strlit("0");
        reveal_strlit("1");
        reveal_strlit("2");
        reveal_strlit("3");
        reveal_strlit("4");
        reveal_strlit("5");
        reveal_strlit("6");
        reveal_strlit("7");
        reveal_strlit("8");
        reveal_strlit("9");
    }
    let numeral = match last {
        0 => "0",
        1 => "1",
        2 => "2",
        3 => "3",
        4 => "4",
        5 => "5",
        6 => "6",
        7 => "7",
        8 => "8",
        _ => "9",
    };
    assert(numeral@ =~= seq![digit(last as nat)]);
    text.append(numeral);
    assert(text@ =~= decimal(n as nat));
    text
}

/// Writes `n` in decimal, with a minus sign where it is negative.
pub(crate) fn signed_decimal_text(n: i32) -> (r: String)
    ensures
        r@ == signed_decimal(n as int),
{
    if n < 0 {
        proof {
            reveal_strlit("-");
        }
        let magnitude = decimal_text((-(n as i64)) as u64);
        let mut text = String::new();
        text.append("-");
        text.append(magnitude.as_str());
        assert(text@ =~= signed_decimal(n as int));
        text
    } else {
        decimal_text(n as u64)
    }
}

/// Why a text is no `usize`.
#[derive(Debug, Clone, Copy, PartialEq, Eq, Structural)]
pub enum LengthError {
    /// There is nothing to read.
    Empty,
    /// A character is no decimal digit, or there are no digits.
    InvalidDigit,
    /// The number is larger than `usize::MAX`.
    Overflow,
}

impl LengthError {
    /// The message of this error.
    pub open spec fn text(self) -> Seq<char> {
        match self {
            LengthError::Empty => "cannot parse integer from empty string"@,
            LengthError::InvalidDigit => "invalid digit found in string"@,
            LengthError::Overflow => "number too large to fit in target type"@,
        }
    }

    /// Returns the message of this error.
    pub fn to_string(&self) -> (r: String)
        ensures
            r@ == self.text(),
    {
        match self {
            LengthError::Empty => "cannot parse integer from empty string".to_owned(),
            LengthError::InvalidDigit => "invalid digit found in string".to_owned(),
            LengthError::Overflow => "number too large to fit in target type".to_owned(),
        }
    }
}

/// `std::num::ParseIntError`, of which contracts speak through [`int_error`].
#[verifier::external_type_specification]
#[verifier::external_body]
pub struct ExParseIntError(std::num::ParseIntError);

/// The kind that `std::num::ParseIntError::kind` gives, where it is one of [`LengthError`].
pub uninterp spec fn int_error(e: std::num::ParseIntError) -> Option<LengthError>;

/// What is wrong with a text that is no `usize`, where it is plain: it is empty, it is a letter, or
/// it is a number of more than 20 digits.
pub open spec fn plain_fault(text: Seq<char>) -> Option<LengthError> {
    if text.len() == 0 {
        Some(LengthError::Empty)
    } else if text.len() == 1 && 'a' <= text[0] <= 'z' {
        Some(LengthError::InvalidDigit)
    } else if text.len() > 20 && text[0] != '0' && forall|i: int|
        0 <= i < text.len() ==> is_digit(#[trigger] text[i]) {
        Some(LengthError::Overflow)
    } else {
        None
    }
}

/// The error of `str::parse::<usize>`. It has the kind of what is plainly wrong with the text; of
/// other texts nothing is claimed.
#[verifier::external_body]
fn parse_failure(text: &str) -> (r: Option<std::num::ParseIntError>)
    ensures
        plain_fault(text@) is Some ==> r is Some && int_error(r->0) == plain_fault(text@),
{
    text.parse::<usize>().err()
}

impl LengthError {
    /// Returns the standard library's error of this kind.
    pub fn to_parse_error(&self) -> (r: std::num::ParseIntError)
        ensures
            int_error(r) == Some(*self),
    {
        proof {
            reveal_strlit("");
            reveal_strlit("x");
            reveal_strlit("100000000000000000000");
        }
        let failure = match self {
            LengthError::Empty => parse_failure(""),
            LengthError::InvalidDigit => parse_failure("x"),
            LengthError::Overflow => parse_failure("100000000000000000000"),
        };
        failure.unwrap()
    }
}

/// The number that `digits` stand for behind the digits of `value`, or the first fault met
/// on the way. Whether a character is a digit is asked before the number's size.
pub open spec fn digits_value(value: nat, digits: Seq<char>) -> Result<nat, LengthError>
    decreases digits.len(),
{
    if digits.len() == 0 {
        Ok(value)
    } else if !is_digit(digits[0]) {
        Err(LengthError::InvalidDigit)
    } else if value * 10 + digit_value(digits[0]) > usize::MAX {
        Err(LengthError::Overflow)
    } else {
        digits_value(value * 10 + digit_value(digits[0]), digits.skip(1))
    }
}

/// The number that `text` stands for: decimal digits, which a plus sign may precede.
pub open spec fn unsigned_value(text: Seq<char>) -> Result<nat, LengthError> {
    if text.len() == 0 {
        Err(LengthError::Empty)
    } else if text == seq!['+'] {
        Err(LengthError::InvalidDigit)
    } else if text[0] == '+' {
        digits_value(0, text.skip(1))
    } else {
        digits_value(0, text)
    }
}

/// The result that `r` stands for as a mathematical number.
pub open spec fn as_nat(r: Result<usize, LengthError>) -> Result<nat, LengthError> {
    match r {
        Ok(n) => Ok(n as nat),
        Err(e) => Err(e),
    }
}

/// Reads the number that stands in `text[from..to]`.
pub(crate) fn parse_unsigned(text: &Vec<char>, from: usize, to: usize) -> (r: Result<
    usize,
    LengthError,
>)
    requires
        from <= to <= text@.len(),
    ensures
        as_nat(r) == unsigned_value(text@.subrange(from as int, to as int)),
{
    let ghost part = text@.subrange(from as int, to as int);
    if from == to {
        return Err(LengthError::Empty);
    }
    let mut at: usize = from;
    if text[from] == '+' {
        if to - from == 1 {
            assert(part =~= seq!['+']);
            return Err(LengthError::InvalidDigit);
        }
        at = from + 1;
        assert(part.skip(1) =~= text@.subrange(at as int, to as int));
    }
    assert(unsigned_value(part) == digits_value(0, text@.subrange(at as int, to as int)));
    let mut value: usize = 0;
    while at < to
        invariant
            from <= at <= to <= text@.len(),
            part == text@.subrange(from as int, to as int),
            unsigned_value(part) == digits_value(
                value as nat,
                text@.subrange(at as int, to as int),
            ),
        decreases to - at,
    {
        let c = text[at];
        let ghost rest = text@.subrange(at as int, to as int);
        assert(rest[0] == c);
        assert(rest.skip(1) =~= text@.subrange(at + 1, to as int));
        if !('0' <= c && c <= '9') {
            return Err(LengthError::InvalidDigit);
        }
        let d: usize = (c as u32 - '0' as u32) as usize;
        if value > usize::MAX / 10 {
            return Err(LengthError::Overflow);
        }
        let scaled: usize = value * 10;
        if scaled > usize::MAX - d {
            return Err(LengthError::Overflow);
        }
        value = scaled + d;
        at += 1;
    }
    Ok(value)
}

/// Reading one more digit comes after reading those before it.
proof fn lemma_digits_value_push(value: nat, digits: Seq<char>, last: char)
    ensures
        digits_value(value, digits.push(last)) == (match digits_value(value, digits) {
            Ok(v) => digits_value(v, seq![last]),
            Err(e) => Err(e),
        }),
    decreases digits.len(),
{
    let all = digits.push(last);
    if digits.len() == 0 {
        assert(all =~= seq![last]);
    } else {
        assert(all[0] == digits[0]);
        assert(all.skip(1) =~= digits.skip(1).push(last));
        if is_digit(digits[0]) && value * 10 + digit_value(digits[0]) <= usize::MAX {
            lemma_digits_value_push(value * 10 + digit_value(digits[0]), digits.skip(1), last);
        }
    }
}

/// A decimal numeral starts with a digit and is made of digits.
pub proof fn lemma_decimal_digits(n: nat)
    ensures
        decimal(n).len() >= 1,
        forall|i: int| 0 <= i < decimal(n).len() ==> is_digit(#[trigger] decimal(n)[i]),
    decreases n,
{
    if n >= 10 {
        lemma_decimal_digits(n / 10);
    }
}

/// Reading the decimal numeral of a number that fits gives the number back.
pub proof fn decimal_reads_back(n: nat)
    requires
        n <= usize::MAX,
    ensures
        unsigned_value(decimal(n)) == Ok::<nat, LengthError>(n),
{
    lemma_decimal_digits(n);
    lemma_decimal_reads_back(n);
    assert(is_digit(decimal(n)[0]));
}

proof fn lemma_decimal_reads_back(n: nat)
    requires
        n <= usize::MAX,
    ensures
        digits_value(0, decimal(n)) == Ok::<nat, LengthError>(n),
    decreases n,
{
    reveal_with_fuel(digits_value, 2);
    if n < 10 {
        assert(decimal(n).skip(1) =~= Seq::<char>::empty());
    } else {
        lemma_decimal_reads_back(n / 10);
        lemma_digits_value_push(0, decimal(n / 10), digit(n % 10));
        let last = seq![digit(n % 10)];
        assert(last.skip(1) =~= Seq::<char>::empty());
        assert(digit_value(digit(n % 10)) == n % 10);
    }
}

/// `needle` stands in `haystack` from index `at` on, item for item.
pub open spec fn stands_at<A>(haystack: Seq<A>, needle: Seq<A>, at: int) -> bool {
    &&& 0 <= at
    &&& at + needle.len() <= haystack.len()
    &&& forall|k: int| 0 <= k < needle.len() ==> haystack[at + k] == #[trigger] needle[k]
}

/// What is found is the first place where the searched sequence stands, item for item, and nothing
/// is found only where it stands nowhere.
pub proof fn first_place_is_found<A>(haystack: Seq<A>, needle: Seq<A>)
    ensures
        match first_occurrence(haystack, needle) {
            Some(at) => stands_at(haystack, needle, at) && forall|j: int|
                j < at ==> !#[trigger] stands_at(haystack, needle, j),
            None => forall|j: int| !#[trigger] stands_at(haystack, needle, j),
        },
{
    assert forall|j: int| #[trigger] stands_at(haystack, needle, j) == occurs_at(
        haystack,
        needle,
        j,
    ) by {
        if stands_at(haystack, needle, j) {
            assert(haystack.subrange(j, j + needle.len()) =~= needle);
        }
        if occurs_at(haystack, needle, j) {
            assert forall|k: int| 0 <= k < needle.len() implies haystack[j + k]
                == #[trigger] needle[k] by {
                assert(haystack.subrange(j, j + needle.len())[k] == haystack[j + k]);
            }
        }
    }
    match first_occurrence(haystack, needle) {
        Some(at) => {
            assert(occurs_first_at(haystack, needle, at));
        },
        None => {
            assert forall|j: int| !#[trigger] stands_at(haystack, needle, j) by {
                if occurs_at(haystack, needle, j) {
                    lemma_some_first_occurrence(haystack, needle, j);
                }
            }
        },
    }
}

/// Where something occurs, it occurs first somewhere.
proof fn lemma_some_first_occurrence<A>(haystack: Seq<A>, needle: Seq<A>, at: int)
    requires
        occurs_at(haystack, needle, at),
    ensures
        exists|i: int| occurs_first_at(haystack, needle, i),
    decreases at,
{
    if exists|j: int| 0 <= j < at && occurs_at(haystack, needle, j) {
        let j = choose|j: int| 0 <= j < at && occurs_at(haystack, needle, j);
        lemma_some_first_occurrence(haystack, needle, j);
    } else {
        assert(occurs_first_at(haystack, needle, at));
    }
}

/// `text` holds no line end.
pub open spec fn is_one_line(text: Seq<char>) -> bool {
    forall|i: int| 0 <= i < text.len() - 1 ==> !(#[trigger] text[i] == '\r' && text[i + 1] == '\n')
}

/// The lines, with a line end between each and the next.
pub open spec fn text_of_lines(ls: Seq<Seq<char>>) -> Seq<char>
    decreases ls.len(),
{
    if ls.len() == 0 {
        Seq::empty()
    } else if ls.len() == 1 {
        ls[0]
    } else {
        ls[0] + seq!['\r', '\n'] + text_of_lines(ls.skip(1))
    }
}

/// Splitting a text that was made of lines gives those lines back.
pub proof fn lines_are_split_where_they_were_joined(ls: Seq<Seq<char>>)
    requires
        ls.len() > 0,
        forall|i: int| 0 <= i < ls.len() ==> is_one_line(#[trigger] ls[i]),
    ensures
        lines(text_of_lines(ls)) == ls,
    decreases ls.len(),
{
    let text = text_of_lines(ls);
    let first = ls[0];
    assert(is_one_line(first));
    if ls.len() == 1 {
        assert forall|at: int| !occurs_first_at(text, crlf(), at) by {
            if occurs_at(text, crlf(), at) {
                assert(text.subrange(at, at + 2)[0] == text[at]);
                assert(text.subrange(at, at + 2)[1] == text[at + 1]);
            }
        }
        assert(lines(text) =~= ls);
    } else {
        let rest = text_of_lines(ls.skip(1));
        let at = first.len() as int;
        assert(text.subrange(at, at + 2) =~= crlf());
        assert forall|j: int| 0 <= j < at implies !#[trigger] occurs_at(text, crlf(), j) by {
            if occurs_at(text, crlf(), j) {
                assert(text.subrange(j, j + 2)[0] == text[j]);
                assert(text.subrange(j, j + 2)[1] == text[j + 1]);
                assert(text[j] == first[j]);
                if j + 1 < at {
                    assert(text[j + 1] == first[j + 1]);
                } else {
                    assert(text[j + 1] == '\r');
                }
            }
        }
        lemma_first_occurrence_is(text, crlf(), at);
        assert(text.take(at) =~= first);
        assert(text.skip(at + 2) =~= rest);
        assert forall|i: int| 0 <= i < ls.skip(1).len() implies is_one_line(
            #[trigger] ls.skip(1)[i],
        ) by {
            assert(ls.skip(1)[i] == ls[i + 1]);
        }
        lines_are_split_where_they_were_joined(ls.skip(1));
        assert(lines(text) =~= seq![first] + lines(rest));
        assert(seq![first] + ls.skip(1) =~= ls);
    }
}

/// Splitting a text gives at least one line, no line holds a line end, and joining the lines gives
/// the text back.
pub proof fn lines_make_up_the_text(text: Seq<char>)
    ensures
        lines(text).len() > 0,
        forall|i: int| 0 <= i < lines(text).len() ==> is_one_line(#[trigger] lines(text)[i]),
        text_of_lines(lines(text)) == text,
    decreases text.len(),
{
    first_place_is_found(text, crlf());
    match first_occurrence(text, crlf()) {
        Some(at) => {
            let rest = text.skip(at + 2);
            lines_make_up_the_text(rest);
            let ls = lines(text);
            assert(ls =~= seq![text.take(at)] + lines(rest));
            assert(ls.skip(1) =~= lines(rest));
            assert forall|i: int| 0 <= i < text.take(at).len() - 1 implies !(#[trigger] text.take(
                at,
            )[i] == '\r' && text.take(at)[i + 1] == '\n') by {
                assert(text.skip(i).len() >= 0);
                if text[i] == '\r' && text[i + 1] == '\n' {
                    assert(text.subrange(i, i + 2) =~= crlf());
                    assert(occurs_at(text, crlf(), i));
                }
            }
            assert forall|i: int| 0 <= i < ls.len() implies is_one_line(#[trigger] ls[i]) by {
                if i > 0 {
                    assert(ls[i] == lines(rest)[i - 1]);
                }
            }
            assert(crlf()[0] == '\r' && crlf()[1] == '\n');
            assert(text_of_lines(ls) =~= text.take(at) + seq!['\r', '\n'] + text_of_lines(
                ls.skip(1),
            ));
            assert(text[at + 0] == crlf()[0] && text[at + 1] == crlf()[1]);
            assert(text_of_lines(ls) =~= text);
        },
        None => {
            assert(lines(text) =~= seq![text]);
            assert forall|i: int| 0 <= i < text.len() - 1 implies !(#[trigger] text[i] == '\r'
                && text[i + 1] == '\n') by {
                if text[i] == '\r' && text[i + 1] == '\n' {
                    assert(text.subrange(i, i + 2) =~= crlf());
                    lemma_some_first_occurrence(text, crlf(), i);
                }
            }
        },
    }
}

/// Trimming takes white space off both ends, all of it, and nothing else.
pub proof fn trimming_takes_the_white_space_off(text: Seq<char>)
    ensures
        exists|from: int, to: int|
            #![trigger text.subrange(from, to)]
            {
                &&& 0 <= from <= to <= text.len()
                &&& trim(text) == text.subrange(from, to)
                &&& forall|i: int| 0 <= i < from ==> is_white_space(#[trigger] text[i])
                &&& forall|i: int| to <= i < text.len() ==> is_white_space(#[trigger] text[i])
            },
        trim(text).len() > 0 ==> !is_white_space(trim(text)[0]) && !is_white_space(
            trim(text).last(),
        ),
{
    lemma_trim_start(text);
    let from = text.len() - trim_start(text).len();
    let rest = trim_start(text);
    lemma_trim_end(rest);
    let to = from + trim_end(rest).len();
    assert(trim(text) =~= text.subrange(from, to));
    assert forall|i: int| to <= i < text.len() implies is_white_space(#[trigger] text[i]) by {
        assert(text[i] == rest[i - from]);
    }
    if trim(text).len() > 0 {
        assert(trim(text)[0] == rest[0]);
    }
}

proof fn lemma_trim_start(text: Seq<char>)
    ensures
        trim_start(text).len() <= text.len(),
        trim_start(text) == text.skip(text.len() - trim_start(text).len()),
        forall|i: int|
            0 <= i < text.len() - trim_start(text).len() ==> is_white_space(#[trigger] text[i]),
        trim_start(text).len() > 0 ==> !is_white_space(trim_start(text)[0]),
    decreases text.len(),
{
    if text.len() > 0 && is_white_space(text[0]) {
        let rest = text.skip(1);
        lemma_trim_start(rest);
        let cut = text.len() - trim_start(text).len();
        assert(trim_start(text) =~= text.skip(cut));
        assert forall|i: int| 0 <= i < cut implies is_white_space(#[trigger] text[i]) by {
            if i > 0 {
                assert(text[i] == rest[i - 1]);
            }
        }
    } else {
        assert(text.skip(0) =~= text);
    }
}

proof fn lemma_trim_end(text: Seq<char>)
    ensures
        trim_end(text).len() <= text.len(),
        trim_end(text) == text.take(trim_end(text).len() as int),
        forall|i: int| trim_end(text).len() <= i < text.len() ==> is_white_space(#[trigger] text[i]),
        trim_end(text).len() > 0 ==> !is_white_space(trim_end(text).last()),
    decreases text.len(),
{
    if text.len() > 0 && is_white_space(text.last()) {
        let rest = text.drop_last();
        lemma_trim_end(rest);
        assert(trim_end(text) =~= text.take(trim_end(text).len() as int));
        assert forall|i: int| trim_end(text).len() <= i < text.len() implies is_white_space(
            #[trigger] text[i],
        ) by {
            if i < text.len() - 1 {
                assert(text[i] == rest[i]);
            }
        }
    } else {
        assert(text.take(text.len() as int) =~= text);
    }
}

/// Blanks and tabs around a text without white space at its ends are taken off.
pub proof fn blanks_are_trimmed(left: Seq<char>, text: Seq<char>, right: Seq<char>)
    requires
        forall|i: int| 0 <= i < left.len() ==> #[trigger] left[i] == ' ' || left[i] == '\t',
        forall|i: int| 0 <= i < right.len() ==> #[trigger] right[i] == ' ' || right[i] == '\t',
        text.len() > 0,
        '!' <= text[0] <= '~',
        '!' <= text.last() <= '~',
    ensures
        trim(left + text + right) == text,
    decreases left.len() + right.len(),
{
    let all = left + text + right;
    if left.len() > 0 {
        assert(all[0] == left[0]);
        let fewer = left.skip(1);
        assert forall|i: int| 0 <= i < fewer.len() implies #[trigger] fewer[i] == ' ' || fewer[i]
            == '\t' by {
            assert(fewer[i] == left[i + 1]);
        }
        assert(all.skip(1) =~= fewer + text + right);
        blanks_are_trimmed(fewer, text, right);
    } else if right.len() > 0 {
        assert(all =~= text + right);
        assert(all[0] == text[0]);
        assert(trim_start(all) == all);
        assert(all.last() == right.last());
        let fewer = right.drop_last();
        assert forall|i: int| 0 <= i < fewer.len() implies #[trigger] fewer[i] == ' ' || fewer[i]
            == '\t' by {
            assert(fewer[i] == right[i]);
        }
        assert(all.drop_last() =~= left + text + fewer);
        blanks_are_trimmed(left, text, fewer);
        assert((left + text + fewer)[0] == text[0]);
    } else {
        assert(all =~= text);
    }
}

/// The number that decimal digits stand for: each digit has ten times the value of the next.
pub open spec fn number_of(digits: Seq<char>) -> nat
    decreases digits.len(),
{
    if digits.len() == 0 {
        0
    } else {
        number_of(digits.drop_last()) * 10 + (digits.last() as u32 - '0' as u32) as nat
    }
}

/// `text` is made of the digits from 0 to 9.
pub open spec fn all_digits(text: Seq<char>) -> bool {
    forall|i: int| 0 <= i < text.len() ==> '0' <= #[trigger] text[i] <= '9'
}

/// The numeral of a number is made of digits, stands for the number, and has no leading zero.
pub proof fn numeral_stands_for_its_number(n: nat)
    ensures
        decimal(n).len() > 0,
        all_digits(decimal(n)),
        number_of(decimal(n)) == n,
        decimal(n)[0] == '0' ==> decimal(n).len() == 1,
    decreases n,
{
    if n < 10 {
        assert(decimal(n).drop_last() =~= Seq::<char>::empty());
        assert(number_of(Seq::<char>::empty()) == 0);
        assert(decimal(n).last() as u32 - '0' as u32 == n);
    } else {
        numeral_stands_for_its_number(n / 10);
        assert(decimal(n).drop_last() =~= decimal(n / 10));
        assert(decimal(n).last() as u32 - '0' as u32 == n % 10);
        assert(decimal(n)[0] == decimal(n / 10)[0]);
        if decimal(n / 10)[0] == '0' {
            let short = decimal(n / 10);
            assert(short.drop_last() =~= Seq::<char>::empty());
            assert(number_of(Seq::<char>::empty()) == 0);
            assert(number_of(short) == 0);
        }
    }
}

/// Reading digits gives the number that they stand for, where it fits, also behind a plus sign.
pub proof fn digits_are_read_as_their_number(digits: Seq<char>)
    requires
        digits.len() > 0,
        all_digits(digits),
    ensures
        unsigned_value(digits) == (if number_of(digits) <= usize::MAX {
            Ok::<nat, LengthError>(number_of(digits))
        } else {
            Err(LengthError::Overflow)
        }),
        unsigned_value(seq!['+'] + digits) == unsigned_value(digits),
{
    lemma_digits_value(digits);
    let signed = seq!['+'] + digits;
    assert(signed.skip(1) =~= digits);
    assert(signed.len() > 1);
    assert(seq!['+'].len() == 1);
}

proof fn lemma_digits_value(digits: Seq<char>)
    requires
        all_digits(digits),
    ensures
        digits_value(0, digits) == (if number_of(digits) <= usize::MAX {
            Ok::<nat, LengthError>(number_of(digits))
        } else {
            Err(LengthError::Overflow)
        }),
    decreases digits.len(),
{
    reveal_with_fuel(digits_value, 2);
    if digits.len() > 0 {
        let front = digits.drop_last();
        let last = digits.last();
        assert forall|i: int| 0 <= i < front.len() implies '0' <= #[trigger] front[i] <= '9' by {
            assert(front[i] == digits[i]);
        }
        assert('0' <= digits[digits.len() - 1] <= '9');
        lemma_digits_value(front);
        lemma_digits_value_push(0, front, last);
        assert(front.push(last) =~= digits);
        assert(seq![last].skip(1) =~= Seq::<char>::empty());
    }
}

/// A text that is not made of digits, but for a plus sign before them, is no number, and neither is
/// one without digits.
pub proof fn only_digits_are_a_number(text: Seq<char>)
    ensures
        text.len() == 0 ==> unsigned_value(text) == Err::<nat, LengthError>(LengthError::Empty),
        text == seq!['+'] ==> unsigned_value(text) == Err::<nat, LengthError>(
            LengthError::InvalidDigit,
        ),
        text.len() > 0 && text[0] != '+' && !all_digits(text) ==> unsigned_value(text) is Err,
        text.len() > 0 && text[0] == '+' && !all_digits(text.skip(1)) ==> unsigned_value(
            text,
        ) is Err,
{
    if text.len() > 0 {
        if text[0] != '+' && !all_digits(text) {
            lemma_no_digits(0, text);
        }
        if text[0] == '+' && !all_digits(text.skip(1)) {
            lemma_no_digits(0, text.skip(1));
        }
    }
}

/// The first character that is no digit decides: the number before it is too large, or else the
/// character is what is wrong. A plus sign at the start changes nothing.
pub proof fn first_other_character_is_the_fault(text: Seq<char>, k: int)
    requires
        0 <= k < text.len(),
        all_digits(text.take(k)),
        !('0' <= text[k] <= '9'),
        text[0] != '+',
    ensures
        unsigned_value(text) == Err::<nat, LengthError>(
            if number_of(text.take(k)) <= usize::MAX {
                LengthError::InvalidDigit
            } else {
                LengthError::Overflow
            },
        ),
        unsigned_value(seq!['+'] + text) == unsigned_value(text),
{
    lemma_digits_value(text.take(k));
    lemma_fault_behind_digits(0, text, k);
    let signed = seq!['+'] + text;
    assert(signed.skip(1) =~= text);
    assert(seq!['+'].len() == 1);
}

proof fn lemma_fault_behind_digits(value: nat, text: Seq<char>, k: int)
    requires
        0 <= k < text.len(),
        all_digits(text.take(k)),
        !('0' <= text[k] <= '9'),
    ensures
        digits_value(value, text) == (match digits_value(value, text.take(k)) {
            Ok(_) => Err::<nat, LengthError>(LengthError::InvalidDigit),
            Err(e) => Err(e),
        }),
    decreases k,
{
    if k > 0 {
        let front = text.take(k);
        assert('0' <= front[0] <= '9');
        assert(front[0] == text[0]);
        let rest = text.skip(1);
        assert(rest.take(k - 1) =~= front.skip(1));
        assert forall|i: int| 0 <= i < k - 1 implies '0' <= #[trigger] rest.take(k - 1)[i]
            <= '9' by {
            assert(rest.take(k - 1)[i] == front[i + 1]);
        }
        if value * 10 + digit_value(text[0]) <= usize::MAX {
            lemma_fault_behind_digits(value * 10 + digit_value(text[0]), rest, k - 1);
        }
    }
}

proof fn lemma_no_digits(value: nat, text: Seq<char>)
    requires
        !all_digits(text),
    ensures
        digits_value(value, text) is Err,
    decreases text.len(),
{
    let i = choose|i: int| 0 <= i < text.len() && !('0' <= #[trigger] text[i] <= '9');
    if is_digit(text[0]) && value * 10 + digit_value(text[0]) <= usize::MAX {
        assert(text.skip(1)[i - 1] == text[i]);
        lemma_no_digits(value * 10 + digit_value(text[0]), text.skip(1));
    }
}

/// A negative number is written as a minus sign and the numeral of its absolute value.
pub proof fn signed_numeral_stands_for_its_number(n: nat)
    ensures
        signed_decimal(n as int) == decimal(n),
        n > 0 ==> signed_decimal(-(n as int)) == seq!['-'] + decimal(n),
{
}

/// White space is what Unicode calls so, by its numbers.
pub proof fn white_space_has_these_numbers(c: char)
    ensures
        is_white_space(c) <==> {
            let n = c as u32;
            9 <= n <= 13 || n == 0x20 || n == 0x85 || n == 0xa0 || n == 0x1680 || 0x2000 <= n
                <= 0x200a || n == 0x2028 || n == 0x2029 || n == 0x202f || n == 0x205f || n == 0x3000
        },
{
}

} // verus!
