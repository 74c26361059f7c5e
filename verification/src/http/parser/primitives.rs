//! Recognisers for the RFC 7230 building blocks: tokens, URIs and comments.
//!
//! Every parser takes the bytes that start at the construct and returns the
//! inclusive index of its last byte, or a message that says why there is none.

use crate::http::message::{header_name_from_bytes, header_name_text, is_value_text, HeaderValue};
use crate::text::text_of;
use vstd::prelude::*;
use vstd::slice::slice_subrange;
use vstd::string::StringExecFns;

verus! {

/// The octets that the grammar names.
pub const TAB: u8 = 9;
pub const SPACE: u8 = 32;
pub const DOUBLE_QUOTE: u8 = 34;
pub const OPEN_PARENTHESIS: u8 = 40;
pub const CLOSE_PARENTHESIS: u8 = 41;
pub const COMMA: u8 = 44;
pub const SLASH: u8 = 47;
pub const COLON: u8 = 58;
pub const SEMICOLON: u8 = 59;
pub const LESS_THAN: u8 = 60;
pub const EQUALS_SIGN: u8 = 61;
pub const GREATER_THAN: u8 = 62;
pub const QUESTION_MARK: u8 = 63;
pub const AT_SIGN: u8 = 64;
pub const OPEN_BRACKET: u8 = 91;
pub const BACKSLASH: u8 = 92;
pub const CLOSE_BRACKET: u8 = 93;
pub const OPEN_BRACE: u8 = 123;
pub const CLOSE_BRACE: u8 = 125;
/// The largest octet that is a `CHAR`.
pub const CHAR_MAX: u8 = 127;

/// Space or horizontal tab.
pub open spec fn spec_is_linear_whitespace(symbol: u8) -> bool {
    symbol == TAB || symbol == SPACE
}

/// One of `( ) < > @ , ; : \ " / [ ] ? = { }`, space or tab.
pub open spec fn spec_is_separator(symbol: u8) -> bool {
    symbol == OPEN_PARENTHESIS || symbol == CLOSE_PARENTHESIS || symbol == LESS_THAN
        || symbol == GREATER_THAN || symbol == AT_SIGN || symbol == COMMA || symbol == SEMICOLON
        || symbol == COLON || symbol == BACKSLASH || symbol == DOUBLE_QUOTE || symbol == SLASH
        || symbol == OPEN_BRACKET || symbol == CLOSE_BRACKET || symbol == QUESTION_MARK
        || symbol == EQUALS_SIGN || symbol == OPEN_BRACE || symbol == CLOSE_BRACE
        || symbol == SPACE || symbol == TAB
}

/// An ASCII control: 0 to 31, or 127.
pub open spec fn spec_is_ascii_control(symbol: u8) -> bool {
    symbol < SPACE || symbol == CHAR_MAX
}

/// Any octet but an ASCII control, and the two whitespace controls.
pub open spec fn spec_is_part_of_text(symbol: u8) -> bool {
    !spec_is_ascii_control(symbol) || spec_is_linear_whitespace(symbol)
}

/// ASCII, not a control and not a separator.
pub open spec fn spec_is_part_of_token(symbol: u8) -> bool {
    symbol <= CHAR_MAX && !spec_is_ascii_control(symbol) && !spec_is_separator(symbol)
}

/// ASCII, not a control and not whitespace.
pub open spec fn spec_is_part_of_uri(symbol: u8) -> bool {
    symbol <= CHAR_MAX && !spec_is_ascii_control(symbol) && !spec_is_linear_whitespace(symbol)
}

#[verifier::when_used_as_spec(spec_is_linear_whitespace)]
pub fn is_linear_whitespace(symbol: u8) -> (r: bool)
    ensures
        r == spec_is_linear_whitespace(symbol),
{
    symbol == TAB || symbol == SPACE
}

#[verifier::when_used_as_spec(spec_is_separator)]
pub fn is_separator(symbol: u8) -> (r: bool)
    ensures
        r == spec_is_separator(symbol),
{
    symbol == OPEN_PARENTHESIS || symbol == CLOSE_PARENTHESIS || symbol == LESS_THAN
        || symbol == GREATER_THAN || symbol == AT_SIGN || symbol == COMMA || symbol == SEMICOLON
        || symbol == COLON || symbol == BACKSLASH || symbol == DOUBLE_QUOTE || symbol == SLASH
        || symbol == OPEN_BRACKET || symbol == CLOSE_BRACKET || symbol == QUESTION_MARK
        || symbol == EQUALS_SIGN || symbol == OPEN_BRACE || symbol == CLOSE_BRACE
        || symbol == SPACE || symbol == TAB
}

fn is_ascii_control(symbol: u8) -> (r: bool)
    ensures
        r == spec_is_ascii_control(symbol),
{
    symbol < SPACE || symbol == CHAR_MAX
}

#[verifier::when_used_as_spec(spec_is_part_of_text)]
pub fn is_part_of_text(symbol: u8) -> (r: bool)
    ensures
        r == spec_is_part_of_text(symbol),
{
    !is_ascii_control(symbol) || is_linear_whitespace(symbol)
}

#[verifier::when_used_as_spec(spec_is_part_of_token)]
pub fn is_part_of_token(symbol: u8) -> (r: bool)
    ensures
        r == spec_is_part_of_token(symbol),
{
    symbol <= CHAR_MAX && !is_ascii_control(symbol) && !is_separator(symbol)
}

#[verifier::when_used_as_spec(spec_is_part_of_uri)]
pub fn is_part_of_uri(symbol: u8) -> (r: bool)
    ensures
        r == spec_is_part_of_uri(symbol),
{
    symbol <= CHAR_MAX && !is_ascii_control(symbol) && !is_linear_whitespace(symbol)
}

/// `end` is the last index of the longest run of token octets that starts
/// `line`.
pub open spec fn token_ends_at(line: Seq<u8>, end: int) -> bool {
    &&& 0 <= end < line.len()
    &&& forall|j: int| 0 <= j <= end ==> spec_is_part_of_token(#[trigger] line[j])
    &&& end + 1 < line.len() ==> !spec_is_part_of_token(line[end + 1])
}

/// `end` is the last index of the longest run of URI octets that starts
/// `line`.
pub open spec fn uri_ends_at(line: Seq<u8>, end: int) -> bool {
    &&& 0 <= end < line.len()
    &&& forall|j: int| 0 <= j <= end ==> spec_is_part_of_uri(#[trigger] line[j])
    &&& end + 1 < line.len() ==> !spec_is_part_of_uri(line[end + 1])
}

/// Finds the token that starts `token_line`: the index of its last octet.
/// There is none where the line is empty or starts with an octet that no
/// token holds; leading whitespace is not skipped.
pub fn parse_token(token_line: &[u8]) -> (r: Result<usize, String>)
    ensures
        match r {
            Ok(end) => end < token_line@.len() && token_ends_at(token_line@, end as int),
            Err(e) => {
                &&& token_line@.len() == 0 || !spec_is_part_of_token(token_line@[0])
                &&& e@ == "empty token"@
            },
        },
{
    let n = token_line.len();
    if n == 0 || !is_part_of_token(token_line[0]) {
        return Err(String::from_str("empty token"));
    }
    let mut idx: usize = 1;
    while idx < n
        invariant
            1 <= idx <= n,
            n == token_line@.len(),
            forall|j: int| 0 <= j < idx ==> spec_is_part_of_token(#[trigger] token_line@[j]),
        decreases n - idx,
    {
        if !is_part_of_token(token_line[idx]) {
            return Ok(idx - 1);
        }
        idx += 1;
    }
    Ok(n - 1)
}

/// Finds the URI that starts `uri_line`: the index of its last octet. There
/// is none where the line is empty or starts with an octet that no URI holds.
pub fn parse_uri(uri_line: &[u8]) -> (r: Result<usize, String>)
    ensures
        match r {
            Ok(end) => end < uri_line@.len() && uri_ends_at(uri_line@, end as int),
            Err(e) => {
                &&& uri_line@.len() == 0 || !spec_is_part_of_uri(uri_line@[0])
                &&& e@ == "empty uri"@
            },
        },
{
    let n = uri_line.len();
    if n == 0 || !is_part_of_uri(uri_line[0]) {
        return Err(String::from_str("empty uri"));
    }
    let mut idx: usize = 1;
    while idx < n
        invariant
            1 <= idx <= n,
            n == uri_line@.len(),
            forall|j: int| 0 <= j < idx ==> spec_is_part_of_uri(#[trigger] uri_line@[j]),
        decreases n - idx,
    {
        if !is_part_of_uri(uri_line[idx]) {
            return Ok(idx - 1);
        }
        idx += 1;
    }
    Ok(n - 1)
}

/// Whether the octet at `i` is the second half of a quoted pair: an
/// unescaped backslash stands before it, and it is a `CHAR`.
pub open spec fn escaped_at(line: Seq<u8>, i: int) -> bool
    decreases i,
{
    if i <= 0 {
        false
    } else {
        line[i - 1] == BACKSLASH && !escaped_at(line, i - 1) && line[i] <= CHAR_MAX
    }
}

/// How many parentheses stand open after the first `i` octets: escaped
/// octets do not count.
pub open spec fn comment_depth(line: Seq<u8>, i: int) -> int
    decreases i,
{
    if i <= 0 {
        0
    } else {
        comment_depth(line, i - 1) + if escaped_at(line, i - 1) {
            0int
        } else if line[i - 1] == OPEN_PARENTHESIS {
            1int
        } else if line[i - 1] == CLOSE_PARENTHESIS {
            -1int
        } else {
            0int
        }
    }
}

/// The octet at `i` is an unescaped `)` that closes the last open
/// parenthesis.
pub open spec fn closes_at(line: Seq<u8>, i: int) -> bool {
    &&& 0 <= i < line.len()
    &&& !escaped_at(line, i)
    &&& line[i] == CLOSE_PARENTHESIS
    &&& comment_depth(line, i + 1) == 0
}

/// The octet at `i` is an unescaped octet that no comment text holds.
pub open spec fn offends_at(line: Seq<u8>, i: int) -> bool {
    &&& 0 <= i < line.len()
    &&& !escaped_at(line, i)
    &&& !spec_is_part_of_text(line[i])
}

/// No octet before `i` closes the comment or offends.
pub open spec fn comment_open_until(line: Seq<u8>, i: int) -> bool {
    forall|j: int| 0 <= j < i ==> !closes_at(line, j) && !offends_at(line, j)
}

/// The line has room for a comment and starts with `(`.
pub open spec fn comment_starts(line: Seq<u8>) -> bool {
    line.len() >= 2 && line[0] == OPEN_PARENTHESIS
}

/// `end` is the index of the `)` that closes the comment which starts `line`.
pub open spec fn comment_ends_at(line: Seq<u8>, end: int) -> bool {
    &&& comment_starts(line)
    &&& closes_at(line, end)
    &&& comment_open_until(line, end)
}

/// Finds the comment that starts `comment_line`,
/// `"(" *( ctext | quoted-pair | comment ) ")"`: the index of the
/// parenthesis that closes it. A backslash escapes the `CHAR` after it, and
/// what is escaped neither opens nor closes.
pub fn parse_comment(comment_line: &[u8]) -> (r: Result<usize, String>)
    ensures
        match r {
            Ok(end) => end < comment_line@.len() && comment_ends_at(comment_line@, end as int),
            Err(e) => {
                ||| {
                    &&& comment_line@.len() < 2
                    &&& e@ == "passed comment line is empty, expected at least ()"@
                }
                ||| {
                    &&& comment_line@.len() >= 2
                    &&& comment_line@[0] != OPEN_PARENTHESIS
                    &&& e@ == "passed line does not starts with open parenthesis ("@
                }
                ||| {
                    &&& comment_starts(comment_line@)
                    &&& exists|j: int|
                        offends_at(comment_line@, j) && comment_open_until(comment_line@, j)
                    &&& e@ == "unexpected control sequence inside a comment"@
                }
                ||| {
                    &&& comment_starts(comment_line@)
                    &&& comment_open_until(comment_line@, comment_line@.len() as int)
                    &&& e@ == "unexpected end of line, expected )"@
                }
            },
        },
{
    let n = comment_line.len();
    if n < 2 {
        return Err(String::from_str("passed comment line is empty, expected at least ()"));
    }
    if comment_line[0] != OPEN_PARENTHESIS {
        return Err(String::from_str("passed line does not starts with open parenthesis ("));
    }
    let ghost line = comment_line@;
    let mut parenthesis_counter: usize = 0;
    let mut skip_next = false;
    let mut idx: usize = 0;
    while idx < n
        invariant
            0 <= idx <= n,
            n == line.len(),
            line == comment_line@,
            comment_starts(line),
            parenthesis_counter == comment_depth(line, idx as int),
            parenthesis_counter <= idx,
            idx >= 1 ==> parenthesis_counter >= 1,
            skip_next == (idx > 0 && line[idx - 1] == BACKSLASH && !escaped_at(line, idx - 1)),
            comment_open_until(line, idx as int),
        decreases n - idx,
    {
        let byte = comment_line[idx];
        if skip_next && byte <= CHAR_MAX {
            skip_next = false;
        } else {
            skip_next = false;
            if byte == OPEN_PARENTHESIS {
                parenthesis_counter += 1;
            } else if byte == CLOSE_PARENTHESIS {
                parenthesis_counter -= 1;
                if parenthesis_counter == 0 {
                    return Ok(idx);
                }
            } else if byte == BACKSLASH {
                skip_next = true;
            } else if !is_part_of_text(byte) {
                return Err(String::from_str("unexpected control sequence inside a comment"));
            }
        }
        idx += 1;
    }
    Err(String::from_str("unexpected end of line, expected )"))
}

/// The length of the longest run of token octets that starts `line`.
pub open spec fn token_run(line: Seq<u8>) -> nat
    decreases line.len(),
{
    if line.len() == 0 || !spec_is_part_of_token(line[0]) {
        0
    } else {
        1 + token_run(line.drop_first())
    }
}

/// The length of the longest run of URI octets that starts `line`.
pub open spec fn uri_run(line: Seq<u8>) -> nat
    decreases line.len(),
{
    if line.len() == 0 || !spec_is_part_of_uri(line[0]) {
        0
    } else {
        1 + uri_run(line.drop_first())
    }
}

/// The length of the longest run of spaces and tabs that starts `line`.
pub open spec fn whitespace_run(line: Seq<u8>) -> nat
    decreases line.len(),
{
    if line.len() == 0 || !spec_is_linear_whitespace(line[0]) {
        0
    } else {
        1 + whitespace_run(line.drop_first())
    }
}

/// A run of token octets that stops at `n` is the longest there is.
pub proof fn lemma_token_run(line: Seq<u8>, n: int)
    requires
        0 <= n <= line.len(),
        forall|j: int| 0 <= j < n ==> spec_is_part_of_token(#[trigger] line[j]),
        n < line.len() ==> !spec_is_part_of_token(line[n]),
    ensures
        token_run(line) == n,
    decreases n,
{
    if n > 0 {
        let rest = line.drop_first();
        assert forall|j: int| 0 <= j < n - 1 implies spec_is_part_of_token(#[trigger] rest[j]) by {
            assert(rest[j] == line[j + 1]);
        }
        lemma_token_run(rest, n - 1);
    }
}

/// A run of URI octets that stops at `n` is the longest there is.
pub proof fn lemma_uri_run(line: Seq<u8>, n: int)
    requires
        0 <= n <= line.len(),
        forall|j: int| 0 <= j < n ==> spec_is_part_of_uri(#[trigger] line[j]),
        n < line.len() ==> !spec_is_part_of_uri(line[n]),
    ensures
        uri_run(line) == n,
    decreases n,
{
    if n > 0 {
        let rest = line.drop_first();
        assert forall|j: int| 0 <= j < n - 1 implies spec_is_part_of_uri(#[trigger] rest[j]) by {
            assert(rest[j] == line[j + 1]);
        }
        lemma_uri_run(rest, n - 1);
    }
}

/// A run of spaces and tabs that stops at `n` is the longest there is.
pub proof fn lemma_whitespace_run(line: Seq<u8>, n: int)
    requires
        0 <= n <= line.len(),
        forall|j: int| 0 <= j < n ==> spec_is_linear_whitespace(#[trigger] line[j]),
        n < line.len() ==> !spec_is_linear_whitespace(line[n]),
    ensures
        whitespace_run(line) == n,
    decreases n,
{
    if n > 0 {
        let rest = line.drop_first();
        assert forall|j: int| 0 <= j < n - 1 implies spec_is_linear_whitespace(
            #[trigger] rest[j],
        ) by {
            assert(rest[j] == line[j + 1]);
        }
        lemma_whitespace_run(rest, n - 1);
    }
}

/// Where the name of a header field ends and its value starts: the number
/// of octets of the name, and the index of the first octet of the value.
pub open spec fn spec_split_header(line: Seq<u8>) -> Result<(int, int), Seq<char>> {
    let name_len = token_run(line) as int;
    if name_len == 0 {
        Err("empty token"@)
    } else if name_len == line.len() || line[name_len] != COLON {
        Err("unexpected symbol or eol after field name, expected :"@)
    } else {
        Ok((name_len, name_len + 1 + whitespace_run(line.skip(name_len + 1))))
    }
}

/// The header field of a name, as `http` normalised it, and of the octets
/// of a value.
pub open spec fn spec_header_field(name: Option<Seq<char>>, value: Seq<u8>) -> Result<
    (Seq<char>, Seq<u8>),
    Seq<char>,
> {
    match name {
        None => Err("failed to parse header name"@),
        Some(name) => if is_value_text(value) {
            Ok((name, value))
        } else {
            Err("failed to parse header value"@)
        },
    }
}

/// What [`parse_header`] makes of a line: the name as `http` normalises
/// it and the octets of the value, or the reason why there is no field.
pub open spec fn spec_parse_header(line: Seq<u8>) -> Result<(Seq<char>, Seq<u8>), Seq<char>> {
    match spec_split_header(line) {
        Err(e) => Err(e),
        Ok((name_len, value_start)) => spec_header_field(
            header_name_text(line.take(name_len)),
            line.skip(value_start),
        ),
    }
}

/// What a parsed header field holds, as mathematical values.
pub open spec fn header_result_view(r: Result<(String, HeaderValue), String>) -> Result<
    (Seq<char>, Seq<u8>),
    Seq<char>,
> {
    match r {
        Ok((name, value)) => Ok((name@, value@)),
        Err(e) => Err(e@),
    }
}

/// What the bounds of a header field hold, as mathematical values.
pub open spec fn bounds_result_view(r: Result<(usize, usize), String>) -> Result<
    (int, int),
    Seq<char>,
> {
    match r {
        Ok((name_len, value_start)) => Ok((name_len as int, value_start as int)),
        Err(e) => Err(e@),
    }
}

/// Finds the name and the value in a header line,
/// `field-name ":" *LWS field-value`: the name is the token that starts the
/// line, a colon follows it, and the value starts after the colon and the
/// spaces and tabs behind it.
pub fn split_header(header_line: &[u8]) -> (r: Result<(usize, usize), String>)
    ensures
        bounds_result_view(r) == spec_split_header(header_line@),
        r matches Ok((name_len, value_start)) ==> 0 < name_len < value_start <= header_line@.len(),
{
    let ghost line = header_line@;
    let n = header_line.len();
    let name_end = match parse_token(header_line) {
        Ok(end) => end,
        Err(e) => {
            proof {
                lemma_token_run(line, 0);
            }
            return Err(e);
        },
    };
    proof {
        lemma_token_run(line, name_end + 1);
    }
    if name_end == n - 1 || header_line[name_end + 1] != COLON {
        return Err(String::from_str("unexpected symbol or eol after field name, expected :"));
    }
    let first: usize = name_end + 2;
    let ghost after_colon = line.skip(first as int);
    let mut value_start: usize = first;
    while value_start < n && is_linear_whitespace(header_line[value_start])
        invariant
            first <= value_start <= n,
            n == line.len(),
            line == header_line@,
            after_colon == line.skip(first as int),
            forall|j: int|
                0 <= j < value_start - first ==> spec_is_linear_whitespace(
                    #[trigger] after_colon[j],
                ),
        decreases n - value_start,
    {
        value_start += 1;
    }
    proof {
        lemma_whitespace_run(after_colon, value_start - first);
    }
    Ok((name_end + 1, value_start))
}

/// Makes a header field of a name, as `http` normalised it, and of the
/// octets of a value. There is none without a name, and none where an octet
/// may not stand in a header value.
pub fn header_field(name: Option<String>, value: &[u8]) -> (r: Result<(String, HeaderValue), String>)
    ensures
        header_result_view(r) == spec_header_field(text_of(name), value@),
{
    let name = match name {
        Some(name) => name,
        None => {
            return Err(String::from_str("failed to parse header name"));
        },
    };
    match HeaderValue::from_bytes(value) {
        Some(value) => Ok((name, value)),
        None => Err(String::from_str("failed to parse header value")),
    }
}

/// Splits a header line, `field-name ":" *LWS field-value`, into its name
/// and its value. The name is the token that starts the line, normalised;
/// the value is what follows the colon and the whitespace after it, up to
/// the end of the line.
pub fn parse_header(header_line: &[u8]) -> (r: Result<(String, HeaderValue), String>)
    ensures
        header_result_view(r) == spec_parse_header(header_line@),
{
    let (name_len, value_start) = match split_header(header_line) {
        Ok(bounds) => bounds,
        Err(e) => {
            return Err(e);
        },
    };
    let name_bytes = slice_subrange(header_line, 0, name_len);
    let value_bytes = slice_subrange(header_line, value_start, header_line.len());
    assert(name_bytes@ =~= header_line@.take(name_len as int));
    assert(value_bytes@ =~= header_line@.skip(value_start as int));
    header_field(header_name_from_bytes(name_bytes), value_bytes)
}

} // verus!
