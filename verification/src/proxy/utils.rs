//! What the proxy asks of a request before it forwards it.

use crate::http::message::{
    first_value, has_name, without_name, RequestParts, Uri, UriView, HEADER_HOST,
    HEADER_PROXY_CONNECTION,
};
use crate::text::{clone_text, string_from_utf8, text_of};
use vstd::utf8::{decode_utf8, valid_utf8};
use vstd::prelude::*;
use vstd::std_specs::iter::IteratorSpec;
use vstd::string::{StrSliceExecFns, StringExecFns};

verus! {

/// Why a request is not one that a client sends to a proxy.
#[derive(Clone, Copy, Debug, PartialEq, Eq)]
pub enum ProxyRequestError {
    /// The URI names no host.
    RelativeUri,
    /// The request has no `Proxy-Connection` header.
    NoProxyConnectionHeader,
}

impl ProxyRequestError {
    /// The error in words.
    pub fn message(&self) -> (r: String)
        ensures
            r@ == match *self {
                ProxyRequestError::RelativeUri => "request uri is relative"@,
                ProxyRequestError::NoProxyConnectionHeader => "proxy-connection header is absent"@,
            },
    {
        match self {
            ProxyRequestError::RelativeUri => String::from_str("request uri is relative"),
            ProxyRequestError::NoProxyConnectionHeader => String::from_str(
                "proxy-connection header is absent",
            ),
        }
    }
}

/// Whether the request is one that a client sends to a proxy: it has a
/// `Proxy-Connection` header, whatever its value, and its URI names a host.
/// The header is looked for first.
pub fn validate_request(req: &RequestParts) -> (r: Result<(), ProxyRequestError>)
    ensures
        r is Ok <==> has_name(req.headers@, HEADER_PROXY_CONNECTION@) && req.uri@.host is Some,
        r == Err::<(), _>(ProxyRequestError::NoProxyConnectionHeader) <==> !has_name(
            req.headers@,
            HEADER_PROXY_CONNECTION@,
        ),
        r == Err::<(), _>(ProxyRequestError::RelativeUri) <==> has_name(
            req.headers@,
            HEADER_PROXY_CONNECTION@,
        ) && req.uri@.host is None,
{
    if !req.headers.contains_key(HEADER_PROXY_CONNECTION) {
        return Err(ProxyRequestError::NoProxyConnectionHeader);
    }
    if req.uri.host.is_none() {
        return Err(ProxyRequestError::RelativeUri);
    }
    Ok(())
}

/// The URI in origin form: its path and its query, without scheme, host
/// and port.
pub open spec fn origin_form_of(uri: UriView) -> UriView {
    UriView { scheme: None, host: None, port: None, path: uri.path, query: uri.query }
}

/// Turns a request sent to a proxy into the request that the origin gets:
/// without its `Proxy-Connection` headers, and with the URI in origin form.
/// Nothing else changes.
pub fn clean_request(req: RequestParts) -> (r: RequestParts)
    ensures
        r.headers@ == without_name(req.headers@, HEADER_PROXY_CONNECTION@),
        !has_name(r.headers@, HEADER_PROXY_CONNECTION@),
        r.uri@ == origin_form_of(req.uri@),
        r.uri@.scheme is None && r.uri@.host is None && r.uri@.port is None,
        r.method@ == req.method@,
        r.version == req.version,
{
    let RequestParts { method, uri, version, headers } = req;
    let mut headers = headers;
    headers.remove(HEADER_PROXY_CONNECTION);
    let Uri { scheme: _, host: _, port: _, path, query } = uri;
    RequestParts {
        method,
        uri: Uri { scheme: None, host: None, port: None, path, query },
        version,
        headers,
    }
}

/// The host that a request names: what its first `Host` header says, where
/// that is UTF-8; else the host of its URI.
pub open spec fn spec_extract_host(headers: Seq<(Seq<char>, Seq<u8>)>, uri: UriView) -> Option<
    Seq<char>,
> {
    match first_value(headers, HEADER_HOST@) {
        Some(value) if valid_utf8(value) => Some(decode_utf8(value)),
        _ => uri.host,
    }
}

/// The host that a request names, with the port where it names one: the
/// value of its first `Host` header, where that is UTF-8; else the host of
/// its URI; else nothing.
pub fn extract_host(req: &RequestParts) -> (r: Option<String>)
    ensures
        text_of(r) == spec_extract_host(req.headers@, req.uri@),
{
    if let Some(addr) = req.headers.get(HEADER_HOST) {
        if let Some(addr) = string_from_utf8(addr.as_bytes()) {
            return Some(addr);
        }
    }
    clone_text(&req.uri.host)
}

/// Whether the character is a decimal digit: `0` has the code 48, `9` the
/// code 57.
pub open spec fn is_digit(c: char) -> bool {
    48 <= c as u32 <= 57
}

/// The number that a decimal digit stands for.
pub open spec fn digit_value(c: char) -> nat {
    (c as u32 - 48) as nat
}

/// The number that decimal digits spell. `None` where there is no digit or
/// something else among them.
pub open spec fn decimal_value(digits: Seq<char>) -> Option<nat>
    decreases digits.len(),
{
    if digits.len() == 0 || !is_digit(digits.last()) {
        None
    } else if digits.len() == 1 {
        Some(digit_value(digits.last()))
    } else {
        match decimal_value(digits.drop_last()) {
            Some(value) => Some(value * 10 + digit_value(digits.last())),
            None => None,
        }
    }
}

/// The port that a text spells: decimal digits, after a `+` or not, whose
/// number is 65535 at most.
pub open spec fn spec_parse_port(text: Seq<char>) -> Option<u16> {
    let digits = if text.len() > 0 && text[0] == '+' {
        text.drop_first()
    } else {
        text
    };
    match decimal_value(digits) {
        Some(value) => if value <= 0xffff {
            Some(value as u16)
        } else {
            None
        },
        None => None,
    }
}

/// `i` is the index of the first colon.
pub open spec fn first_colon_at(text: Seq<char>, i: int) -> bool {
    &&& 0 <= i < text.len()
    &&& text[i] == ':'
    &&& forall|j: int| 0 <= j < i ==> text[j] != ':'
}

/// No colon stands in the text.
pub open spec fn has_no_colon(text: Seq<char>) -> bool {
    forall|j: int| 0 <= j < text.len() ==> text[j] != ':'
}

/// The index of the first colon; the length of the text where it has
/// none.
pub open spec fn colon_index(text: Seq<char>) -> int
    decreases text.len(),
{
    if text.len() == 0 || text[0] == ':' {
        0
    } else {
        1 + colon_index(text.drop_first())
    }
}

/// Where the first colon stands, and that none stands before it.
pub proof fn lemma_colon_index(text: Seq<char>)
    ensures
        0 <= colon_index(text) <= text.len(),
        colon_index(text) < text.len() ==> first_colon_at(text, colon_index(text)),
        colon_index(text) == text.len() ==> has_no_colon(text),
    decreases text.len(),
{
    if text.len() > 0 && text[0] != ':' {
        let rest = text.drop_first();
        lemma_colon_index(rest);
        let i = colon_index(rest);
        assert forall|j: int| 0 <= j < i + 1 implies text[j] != ':' by {
            if j > 0 {
                assert(rest[j - 1] == text[j]);
            }
        }
        if i < rest.len() {
            assert(rest[i] == text[i + 1]);
        }
    }
}

/// The first colon is where `colon_index` says, and a text without a colon
/// has the index of its length.
pub proof fn lemma_colon_unique(text: Seq<char>)
    ensures
        has_no_colon(text) ==> colon_index(text) == text.len(),
        forall|colon: int| first_colon_at(text, colon) ==> colon_index(text) == colon,
{
    lemma_colon_index(text);
    let found = colon_index(text);
    assert forall|colon: int| first_colon_at(text, colon) implies colon == found by {
        if found < text.len() {
            if colon < found {
                assert(text[colon] != ':');
            }
            if found < colon {
                assert(text[found] != ':');
            }
        } else {
            assert(text[colon] != ':');
        }
    }
    if has_no_colon(text) && found < text.len() {
        assert(text[found] != ':');
    }
}

/// What a host header says: the host and the port, or why it names none.
pub open spec fn spec_parse_host_header(host: Seq<char>, fallback_port: u16) -> Result<
    (Seq<char>, u16),
    Seq<char>,
> {
    let colon = colon_index(host);
    if colon == host.len() {
        Ok((host, fallback_port))
    } else {
        split_at_colon(host, colon)
    }
}

/// What [`parse_host_header`] answers for a host whose first colon is at
/// `colon`.
pub open spec fn split_at_colon(host: Seq<char>, colon: int) -> Result<(Seq<char>, u16), Seq<char>> {
    if colon == host.len() - 1 {
        Err("unexpected eol while parsing port"@)
    } else {
        match spec_parse_port(host.skip(colon + 1)) {
            Some(port) => Ok((host.take(colon), port)),
            None => Err("invalid host"@),
        }
    }
}

/// What a parsed host holds, as mathematical values.
pub open spec fn host_result_view(r: Result<(String, u16), String>) -> Result<
    (Seq<char>, u16),
    Seq<char>,
> {
    match r {
        Ok((host, port)) => Ok((host@, port)),
        Err(e) => Err(e@),
    }
}

/// Reads a port: decimal digits, after a `+` or not. `None` where the text
/// is no such number or the number is above 65535.
pub fn parse_port(text: &str) -> (r: Option<u16>)
    ensures
        r == spec_parse_port(text@),
{
    let mut it = text.chars();
    let ghost mut seen: int = 0;
    let mut first = match it.next() {
        Some(c) => c,
        None => {
            return None;
        },
    };
    let ghost digits = if text@[0] == '+' {
        text@.drop_first()
    } else {
        text@
    };
    if first == '+' {
        first = match it.next() {
            Some(c) => c,
            None => {
                return None;
            },
        };
    }
    assert(first == digits[0]);
    assert(it.remaining() == digits.skip(1));
    proof {
        assert(digits.take(1).len() == 1);
        assert(digits.take(1).last() == first);
    }
    let d = first as u32;
    if d < 48 || d > 57 {
        assert(decimal_value(digits) is None) by {
            lemma_decimal_prefix(digits, 1);
        }
        return None;
    }
    let mut value: u32 = d - 48;
    let mut overflow = false;
    let ghost mut exact: nat = digit_value(first);
    proof {
        seen = 1;
    }
    loop
        invariant
            1 <= seen <= digits.len(),
            digits == (if text@.len() > 0 && text@[0] == '+' {
                text@.drop_first()
            } else {
                text@
            }),
            it.remaining() == digits.skip(seen),
            it.obeys_prophetic_iter_laws(),
            decimal_value(digits.take(seen)) == Some(exact),
            !overflow ==> value == exact,
            overflow ==> exact > 0xffff,
            value <= 0xffff,
        decreases digits.len() - seen,
    {
        let c = match it.next() {
            Some(c) => c,
            None => {
                assert(digits.take(seen) =~= digits);
                return if overflow {
                    None
                } else {
                    Some(value as u16)
                };
            },
        };
        assert(c == digits[seen]);
        proof {
            assert(digits.skip(seen).drop_first() =~= digits.skip(seen + 1));
            assert(digits.take(seen + 1).drop_last() =~= digits.take(seen));
            assert(digits.take(seen + 1).last() == digits[seen]);
        }
        let d = c as u32;
        if d < 48 || d > 57 {
            assert(decimal_value(digits) is None) by {
                lemma_decimal_prefix(digits, seen + 1);
            }
            return None;
        }
        let next = value * 10 + (d - 48);
        if overflow || next > 0xffff {
            overflow = true;
        } else {
            value = next;
        }
        proof {
            exact = exact * 10 + digit_value(c);
            seen = seen + 1;
        }
    }
}

/// Where a prefix of the digits spells no number, the digits spell none.
pub proof fn lemma_decimal_prefix(digits: Seq<char>, n: int)
    requires
        1 <= n <= digits.len(),
        decimal_value(digits.take(n)) is None,
    ensures
        decimal_value(digits) is None,
    decreases digits.len() - n,
{
    if n < digits.len() {
        assert(digits.take(n + 1).drop_last() =~= digits.take(n));
        lemma_decimal_prefix(digits, n + 1);
    } else {
        assert(digits.take(n) =~= digits);
    }
}

/// Parts a host from its port at the first colon. Without a colon the whole
/// text is the host and the port is `fallback_port`. With one, what follows
/// it has to be a port.
pub fn parse_host_header(host: &String, fallback_port: u16) -> (r: Result<(String, u16), String>)
    ensures
        host_result_view(r) == spec_parse_host_header(host@, fallback_port),
        has_no_colon(host@) ==> host_result_view(r) == Ok::<_, Seq<char>>((host@, fallback_port)),
        forall|colon: int|
            first_colon_at(host@, colon) ==> host_result_view(r) == split_at_colon(host@, colon),
{
    let text = host.as_str();
    let total = text.unicode_len();
    let mut it = text.chars();
    let mut idx: usize = 0;
    loop
        invariant
            0 <= idx <= total,
            total == text@.len(),
            text@ == host@,
            it.remaining() == text@.skip(idx as int),
            it.obeys_prophetic_iter_laws(),
            forall|j: int| 0 <= j < idx ==> text@[j] != ':',
        decreases total - idx,
    {
        match it.next() {
            None => {
                proof {
                    assert(has_no_colon(host@));
                    lemma_colon_unique(host@);
                }
                return Ok((host.clone(), fallback_port));
            },
            Some(c) => {
                assert(c == text@[idx as int]);
                if c == ':' {
                    proof {
                        assert(first_colon_at(host@, idx as int));
                        lemma_colon_unique(host@);
                    }
                    if idx == total - 1 {
                        return Err(String::from_str("unexpected eol while parsing port"));
                    }
                    let rest = text.substring_char(idx + 1, total);
                    assert(rest@ =~= host@.skip(idx + 1));
                    return match parse_port(rest) {
                        Some(port) => {
                            let name = text.substring_char(0, idx);
                            assert(name@ =~= host@.take(idx as int));
                            Ok((name.to_owned(), port))
                        },
                        None => Err(String::from_str("invalid host")),
                    };
                }
                proof {
                    assert(text@.skip(idx as int).drop_first() =~= text@.skip(idx + 1));
                }
                idx += 1;
            },
        }
    }
}

} // verus!
