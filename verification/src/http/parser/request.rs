//! The first line of a request:
//! `Method SP Request-URI SP HTTP-Version CRLF`.

use crate::http::message::{
    is_method_text, method_from_bytes, uri_from_bytes, uri_reference, uri_view_of, Uri, UriView,
    Version,
};
use crate::http::parser::primitives::{
    lemma_token_run, lemma_uri_run, parse_token, parse_uri, token_run, uri_run,
};
use crate::text::{ascii_text, string_from_utf8};
use vstd::prelude::*;
use vstd::slice::slice_subrange;
use vstd::string::StringExecFns;
use vstd::utf8::{decode_utf8, valid_utf8};

verus! {

/// The number of octets in the name of a protocol version.
pub const HTTP_VER_LEN: usize = 8;

/// What a request line says.
#[derive(Debug, PartialEq, Eq)]
pub struct RequestLine {
    pub method: String,
    pub uri: Uri,
    pub version: Version,
}

/// What a [`RequestLine`] holds, as mathematical values.
pub struct RequestLineView {
    pub method: Seq<char>,
    pub uri: UriView,
    pub version: Version,
}

impl View for RequestLine {
    type V = RequestLineView;

    open spec fn view(&self) -> RequestLineView {
        RequestLineView { method: self.method@, uri: self.uri@, version: self.version }
    }
}

/// The octets name HTTP 1.`minor`: `HTTP/1.x`, or `HTTP 1.x` with a space
/// for the slash.
pub open spec fn names_version(octets: Seq<u8>, minor: u8) -> bool {
    &&& octets.len() == 8
    &&& octets[0] == 72
    &&& octets[1] == 84
    &&& octets[2] == 84
    &&& octets[3] == 80
    &&& (octets[4] == 47 || octets[4] == 32)
    &&& octets[5] == 49
    &&& octets[6] == 46
    &&& octets[7] == minor
}

/// The octets as they are shown in a message: their text where they are
/// UTF-8, nothing where they are not.
pub open spec fn shown_text(octets: Seq<u8>) -> Seq<char> {
    if valid_utf8(octets) {
        decode_utf8(octets)
    } else {
        Seq::empty()
    }
}

/// Where the method and the URI stand in a request line: the number of
/// octets of the method, and the number of octets of the URI, which starts
/// one octet behind the method.
pub open spec fn spec_split_request_line(line: Seq<u8>) -> Result<(int, int), Seq<char>> {
    let method_len = token_run(line) as int;
    if method_len == 0 {
        Err("failed when parsing request method"@)
    } else if method_len == 1 {
        Err("unexpected end of line when parsing request method"@)
    } else if method_len + 1 >= line.len() {
        Err("unexpected end of line when parsing request URI"@)
    } else {
        let uri_len = uri_run(line.skip(method_len + 1)) as int;
        if uri_len == 0 {
            Err("empty uri"@)
        } else {
            Ok((method_len, uri_len))
        }
    }
}

/// The request line of a method, of what `http` read in the octets of the
/// URI, and of what follows the URI in the line: one octet, and the name of
/// the version.
pub open spec fn spec_request_line(
    method: Seq<char>,
    uri: Option<UriView>,
    uri_octets: Seq<u8>,
    tail: Seq<u8>,
) -> Result<RequestLineView, Seq<char>> {
    match uri {
        None => Err("invalid uri: "@ + shown_text(uri_octets)),
        Some(uri) => {
            if 1 + HTTP_VER_LEN > tail.len() {
                Err("unexpected end of line when parsing HTTP version"@)
            } else {
                let version = tail.subrange(1, 1 + HTTP_VER_LEN);
                if names_version(version, 48) {
                    Ok(RequestLineView { method, uri, version: Version::Http10 })
                } else if names_version(version, 49) {
                    Ok(RequestLineView { method, uri, version: Version::Http11 })
                } else {
                    Err("unsupported protocol version: "@ + shown_text(version))
                }
            }
        },
    }
}

/// What [`parse_request_line`] makes of a line.
pub open spec fn spec_parse_request_line(line: Seq<u8>) -> Result<RequestLineView, Seq<char>> {
    match spec_split_request_line(line) {
        Err(e) => Err(e),
        Ok((method_len, uri_len)) => {
            let uri_octets = line.subrange(method_len + 1, method_len + 1 + uri_len);
            spec_request_line(
                ascii_text(line.take(method_len)),
                uri_reference(uri_octets),
                uri_octets,
                line.skip(method_len + 1 + uri_len),
            )
        },
    }
}

/// What the bounds of method and URI hold, as mathematical values.
pub open spec fn split_result_view(r: Result<(usize, usize), String>) -> Result<
    (int, int),
    Seq<char>,
> {
    match r {
        Ok((method_len, uri_len)) => Ok((method_len as int, uri_len as int)),
        Err(e) => Err(e@),
    }
}

/// What a parsed request line holds, as mathematical values.
pub open spec fn request_line_result_view(r: Result<RequestLine, String>) -> Result<
    RequestLineView,
    Seq<char>,
> {
    match r {
        Ok(line) => Ok(line@),
        Err(e) => Err(e@),
    }
}

/// The octets as they are shown in a message.
fn shown(octets: &[u8]) -> (r: String)
    ensures
        r@ == shown_text(octets@),
{
    match string_from_utf8(octets) {
        Some(text) => text,
        None => String::new(),
    }
}

/// Whether the eight octets name HTTP 1.`minor`.
fn is_version(octets: &[u8], minor: u8) -> (r: bool)
    requires
        octets@.len() == 8,
    ensures
        r == names_version(octets@, minor),
{
    octets[0] == 72 && octets[1] == 84 && octets[2] == 84 && octets[3] == 80 && (octets[4] == 47
        || octets[4] == 32) && octets[5] == 49 && octets[6] == 46 && octets[7] == minor
}

/// Finds the method and the URI in a request line: the method is the token
/// that starts the line, of two octets or more; one octet parts it from the
/// URI; the URI is the run of URI octets behind that.
pub fn split_request_line(request_line: &[u8]) -> (r: Result<(usize, usize), String>)
    ensures
        split_result_view(r) == spec_split_request_line(request_line@),
        r matches Ok((method_len, uri_len)) ==> {
            &&& 2 <= method_len
            &&& 1 <= uri_len
            &&& method_len + 1 + uri_len <= request_line@.len()
            &&& is_method_text(request_line@.take(method_len as int))
        },
{
    let ghost line = request_line@;
    let n = request_line.len();
    let method_end = match parse_token(request_line) {
        Ok(end) => end,
        Err(_) => {
            proof {
                lemma_token_run(line, 0);
            }
            return Err(String::from_str("failed when parsing request method"));
        },
    };
    proof {
        lemma_token_run(line, method_end + 1);
    }
    if method_end == 0 {
        return Err(String::from_str("unexpected end of line when parsing request method"));
    }
    if n - method_end <= 2 {
        return Err(String::from_str("unexpected end of line when parsing request URI"));
    }
    let rest = slice_subrange(request_line, method_end + 2, n);
    assert(rest@ =~= line.skip(method_end + 2));
    let uri_end = match parse_uri(rest) {
        Ok(end) => end,
        Err(e) => {
            proof {
                lemma_uri_run(rest@, 0);
            }
            return Err(e);
        },
    };
    proof {
        lemma_uri_run(rest@, uri_end + 1);
    }
    Ok((method_end + 1, uri_end + 1))
}

/// Makes a request line of a method, of what `http` read in the octets of
/// the URI, and of what follows the URI in the line. Behind the URI one
/// octet is passed over; then comes the version, `HTTP/1.0` or `HTTP/1.1`,
/// where a space may stand for the slash. What follows the version is not
/// read.
pub fn assemble_request_line(
    method: String,
    uri: Option<Uri>,
    uri_octets: &[u8],
    tail: &[u8],
) -> (r: Result<RequestLine, String>)
    ensures
        request_line_result_view(r) == spec_request_line(
            method@,
            uri_view_of(uri),
            uri_octets@,
            tail@,
        ),
{
    let uri = match uri {
        Some(uri) => uri,
        None => {
            return Err(String::from_str("invalid uri: ").concat(shown(uri_octets).as_str()));
        },
    };
    if tail.len() < 1 + HTTP_VER_LEN {
        return Err(String::from_str("unexpected end of line when parsing HTTP version"));
    }
    let version_bytes = slice_subrange(tail, 1, 1 + HTTP_VER_LEN);
    let version = if is_version(version_bytes, 48) {
        Version::Http10
    } else if is_version(version_bytes, 49) {
        Version::Http11
    } else {
        return Err(
            String::from_str("unsupported protocol version: ").concat(
                shown(version_bytes).as_str(),
            ),
        );
    };
    Ok(RequestLine { method, uri, version })
}

/// Reads a request line, `Method SP Request-URI SP HTTP-Version`: the
/// method, the URI as `http` reads it, and the version.
pub fn parse_request_line(request_line: &[u8]) -> (r: Result<RequestLine, String>)
    ensures
        request_line_result_view(r) == spec_parse_request_line(request_line@),
{
    let (method_len, uri_len) = match split_request_line(request_line) {
        Ok(bounds) => bounds,
        Err(e) => {
            return Err(e);
        },
    };
    let n = request_line.len();
    let method_octets = slice_subrange(request_line, 0, method_len);
    let uri_octets = slice_subrange(request_line, method_len + 1, method_len + 1 + uri_len);
    let tail = slice_subrange(request_line, method_len + 1 + uri_len, n);
    proof {
        assert(method_octets@ =~= request_line@.take(method_len as int));
        assert(tail@ =~= request_line@.skip(method_len + 1 + uri_len));
    }
    // A token of the line is a method: `method_from_bytes` accepts it.
    match method_from_bytes(method_octets) {
        Some(method) => assemble_request_line(method, uri_from_bytes(uri_octets), uri_octets, tail),
        None => Err(String::from_str("got non-standard request header")),
    }
}

} // verus!
