//! From the wire to the model: what the parts of a message and the octets
//! of its body say.

use crate::dto::body::{parse_body, spec_parse_body, BodyView, SimpleBody};
use crate::dto::cookies::{parse_cookies, spec_parse_cookies};
use crate::dto::form::{decode_form, form_pairs, MIME_URL_ENCODED};
use crate::dto::keyed::{has_key, pair_texts};
use crate::dto::multimap::{groups_of, lemma_groups_of_keys, OrderedMultiMap};
use crate::dto::request::{Request, RequestView};
use crate::dto::response::{Response, ResponseView};
use crate::http::message::{
    canonical_reason, canonical_reason_of, first_value, headers_are_text, is_visible_text,
    lemma_first_value, without_name, Headers, RequestParts, ResponseParts, Uri, UriView,
    Version, HEADER_CONTENT_TYPE, HEADER_COOKIE,
};
use crate::text::{ascii_text, text_of};
use vstd::prelude::*;
use vstd::utf8::valid_utf8;

verus! {

/// A request as the transport hands it over: its head, the octets of its
/// body, and whether it goes to its origin over TLS.
pub type WireRequest = (RequestParts, Vec<u8>, bool);

/// A response as the transport hands it over: its head and the octets of
/// its body.
pub type WireResponse = (ResponseParts, Vec<u8>);

/// A request on the wire, as mathematical values.
pub struct WireRequestView {
    pub method: Seq<char>,
    pub uri: UriView,
    pub version: Version,
    pub fields: Seq<(Seq<char>, Seq<u8>)>,
    pub body: Seq<u8>,
    pub is_https: bool,
}

/// What a request on the wire holds, as mathematical values.
pub open spec fn wire_view(wire: WireRequest) -> WireRequestView {
    WireRequestView {
        method: wire.0.method@,
        uri: wire.0.uri@,
        version: wire.0.version,
        fields: wire.0.headers@,
        body: wire.1@,
        is_https: wire.2,
    }
}

/// What an optional request on the wire holds.
pub open spec fn wire_view_of(wire: Option<WireRequest>) -> Option<WireRequestView> {
    match wire {
        Some(wire) => Some(wire_view(wire)),
        None => None,
    }
}

/// The fields as pairs of texts.
pub open spec fn header_pairs(fields: Seq<(Seq<char>, Seq<u8>)>) -> Seq<(Seq<char>, Seq<char>)> {
    Seq::new(fields.len(), |i: int| (fields[i].0, ascii_text(fields[i].1)))
}

/// Whether the head says that the body is a form: its first `Content-Type`
/// is the media type of forms, to the letter.
pub open spec fn spec_says_form(fields: Seq<(Seq<char>, Seq<u8>)>) -> bool {
    match first_value(fields, HEADER_CONTENT_TYPE@) {
        Some(value) => ascii_text(value) == MIME_URL_ENCODED@,
        None => false,
    }
}

/// The request that parts make, given the pairs of the query and the body.
pub open spec fn spec_assemble(
    method: Seq<char>,
    path: Seq<char>,
    fields: Seq<(Seq<char>, Seq<u8>)>,
    query_pairs: Option<Seq<(Seq<char>, Seq<char>)>>,
    body: BodyView,
    is_https: bool,
) -> RequestView {
    RequestView {
        is_https,
        method,
        path,
        query_params: match query_pairs {
            Some(pairs) => Some(groups_of(pairs)),
            None => None,
        },
        headers: groups_of(header_pairs(without_name(fields, HEADER_COOKIE@))),
        cookies: match first_value(fields, HEADER_COOKIE@) {
            Some(value) => Some(spec_parse_cookies(value)),
            None => None,
        },
        body,
    }
}

/// The request that a message on the wire is: its method and the path of
/// its URI, the parameters that its query spells, its headers but for
/// `Cookie`, the cookies of its first `Cookie` header, and its body, which
/// is a form where the message says so and the octets are UTF-8.
pub open spec fn spec_from(wire: WireRequestView) -> RequestView {
    spec_assemble(
        wire.method,
        wire.uri.path,
        wire.fields,
        query_pairs_of(wire.uri.query),
        spec_parse_body(wire.body, spec_says_form(wire.fields)),
        wire.is_https,
    )
}

/// The pairs of an optional list of pairs of strings.
pub open spec fn pairs_view_of(pairs: Option<Vec<(String, String)>>) -> Option<
    Seq<(Seq<char>, Seq<char>)>,
> {
    match pairs {
        Some(pairs) => Some(pair_texts(pairs@)),
        None => None,
    }
}

/// The pairs that the query of a URI spells; none where there is no query.
pub open spec fn query_pairs_of(query: Option<Seq<char>>) -> Option<Seq<(Seq<char>, Seq<char>)>> {
    match query {
        Some(query) => Some(form_pairs(query)),
        None => None,
    }
}

/// Whether the head says that the body is a form.
pub fn says_form(headers: &Headers) -> (r: bool)
    requires
        headers_are_text(headers@),
    ensures
        r == spec_says_form(headers@),
{
    match headers.get(HEADER_CONTENT_TYPE) {
        Some(value) => {
            proof {
                lemma_first_value(headers@, HEADER_CONTENT_TYPE@);
                lemma_first_is_text(headers@, HEADER_CONTENT_TYPE@);
            }
            match value.to_str() {
                Some(text) => text == MIME_URL_ENCODED.to_owned(),
                None => false,
            }
        },
        None => false,
    }
}

/// The first value of a name is text where every value is.
pub proof fn lemma_first_is_text(fields: Seq<(Seq<char>, Seq<u8>)>, name: Seq<char>)
    requires
        headers_are_text(fields),
    ensures
        first_value(fields, name) matches Some(value) ==> is_visible_text(value),
    decreases fields.len(),
{
    if fields.len() > 0 {
        if fields[0].0 == name {
            assert(is_visible_text(fields[0].1));
        } else {
            let rest = fields.drop_first();
            assert forall|i: int| 0 <= i < rest.len() implies is_visible_text(
                (#[trigger] rest[i]).1,
            ) by {
                assert(rest[i] == fields[i + 1]);
            }
            lemma_first_is_text(rest, name);
        }
    }
}

/// What is left of text after fields are taken out is text.
pub proof fn lemma_without_name_text(fields: Seq<(Seq<char>, Seq<u8>)>, name: Seq<char>)
    requires
        headers_are_text(fields),
    ensures
        headers_are_text(without_name(fields, name)),
    decreases fields.len(),
{
    if fields.len() > 0 {
        let rest = fields.drop_last();
        assert forall|i: int| 0 <= i < rest.len() implies is_visible_text((#[trigger] rest[i]).1) by {
            assert(rest[i] == fields[i]);
        }
        lemma_without_name_text(rest, name);
        assert(is_visible_text(fields[fields.len() - 1].1));
    }
}

/// The fields as a multi-map: each value as text under its name.
pub fn headers_to_map(headers: &Headers) -> (r: OrderedMultiMap)
    requires
        headers_are_text(headers@),
    ensures
        r.wf(),
        r@ == groups_of(header_pairs(headers@)),
{
    let mut map = OrderedMultiMap::new();
    let n = headers.len();
    let mut i: usize = 0;
    assert(header_pairs(headers@).take(0) =~= Seq::<(Seq<char>, Seq<char>)>::empty());
    while i < n
        invariant
            0 <= i <= n,
            n == headers@.len(),
            headers_are_text(headers@),
            map.wf(),
            map@ == groups_of(header_pairs(headers@).take(i as int)),
        decreases n - i,
    {
        proof {
            let all = header_pairs(headers@);
            assert(all.take(i + 1).drop_last() =~= all.take(i as int));
            assert(all.take(i + 1).last() == all[i as int]);
            assert(is_visible_text(headers@[i as int].1));
        }
        if let Some(text) = headers.value_at(i).to_str() {
            map.insert(headers.name_at(i).clone(), text);
        }
        i += 1;
    }
    assert(header_pairs(headers@).take(n as int) =~= header_pairs(headers@));
    map
}

impl Request {
    /// The request that the parts make, once the query has been read: the
    /// method and the path as they are, the parameters of the query grouped
    /// by key, the headers but for `Cookie` as text, the cookies of the first
    /// `Cookie` header, and the body.
    pub fn assemble(
        parts: RequestParts,
        query_pairs: Option<Vec<(String, String)>>,
        body: SimpleBody,
        is_https: bool,
    ) -> (r: Request)
        requires
            headers_are_text(parts.headers@),
            body.wf(),
        ensures
            r.wf(),
            r@ == spec_assemble(
                parts.method@,
                parts.uri@.path,
                parts.headers@,
                pairs_view_of(query_pairs),
                body@,
                is_https,
            ),
    {
        let RequestParts { method, uri, version: _, headers } = parts;
        let Uri { scheme: _, host: _, port: _, path, query: _ } = uri;
        let ghost fields = headers@;
        let query_params = match query_pairs {
            Some(pairs) => Some(OrderedMultiMap::from_pairs(&pairs)),
            None => None,
        };
        let cookies = match headers.get(HEADER_COOKIE) {
            Some(value) => {
                proof {
                    lemma_first_is_text(fields, HEADER_COOKIE@);
                }
                Some(parse_cookies(value.as_bytes()))
            },
            None => None,
        };
        let mut headers = headers;
        headers.remove(HEADER_COOKIE);
        proof {
            lemma_without_name_text(fields, HEADER_COOKIE@);
        }
        let map = headers_to_map(&headers);
        proof {
            let kept = header_pairs(without_name(fields, HEADER_COOKIE@));
            lemma_groups_of_keys(kept, HEADER_COOKIE@);
            if has_key(map@, HEADER_COOKIE@) {
                let i = choose|i: int| 0 <= i < kept.len() && (#[trigger] kept[i]).0 == HEADER_COOKIE@;
                assert(without_name(fields, HEADER_COOKIE@)[i].0 == HEADER_COOKIE@);
            }
        }
        Request::new(is_https, method, path, query_params, map, cookies, body)
    }

    /// The request that a message on the wire is. Its body is a form
    /// exactly when its first `Content-Type` says so and the octets are
    /// UTF-8; else the body stays as it came.
    pub fn from(req: WireRequest) -> (r: Request)
        requires
            headers_are_text(req.0.headers@),
        ensures
            r.wf(),
            r@ == spec_from(wire_view(req)),
            r@.body is UrlEncoded <==> spec_says_form(req.0.headers@) && valid_utf8(req.1@),
    {
        let (parts, body, is_https) = req;
        let query_pairs = match &parts.uri.query {
            Some(query) => Some(decode_form(query.as_str())),
            None => None,
        };
        let is_urlencoded = says_form(&parts.headers);
        let body = parse_body(body, is_urlencoded);
        Request::assemble(parts, query_pairs, body, is_https)
    }
}

/// The response that a head makes, given the reason phrase of its code and
/// the body.
pub open spec fn spec_assemble_response(
    status: u16,
    fields: Seq<(Seq<char>, Seq<u8>)>,
    reason: Option<Seq<char>>,
    body: BodyView,
) -> ResponseView {
    ResponseView {
        code: status,
        message: match reason {
            Some(reason) => reason,
            None => Seq::empty(),
        },
        headers: groups_of(header_pairs(fields)),
        body,
    }
}

impl Response {
    /// The response that the head makes, once the reason phrase has been
    /// looked up: where the code has none, the message is empty.
    pub fn assemble(parts: ResponseParts, reason: Option<String>, body: SimpleBody) -> (r:
        Response)
        requires
            headers_are_text(parts.headers@),
            body.wf(),
        ensures
            r.wf(),
            r@ == spec_assemble_response(parts.status, parts.headers@, text_of(reason), body@),
    {
        let message = match reason {
            Some(reason) => reason,
            None => String::new(),
        };
        let headers = headers_to_map(&parts.headers);
        Response::new(parts.status, message, headers, body)
    }

    /// The response that a message on the wire is. Its message is the
    /// canonical reason phrase of its code; its body is a form exactly when
    /// its first `Content-Type` says so and the octets are UTF-8.
    pub fn from(resp: WireResponse) -> (r: Response)
        requires
            headers_are_text(resp.0.headers@),
        ensures
            r.wf(),
            r@ == spec_assemble_response(
                resp.0.status,
                resp.0.headers@,
                canonical_reason(resp.0.status),
                spec_parse_body(resp.1@, spec_says_form(resp.0.headers@)),
            ),
            r@.body is UrlEncoded <==> spec_says_form(resp.0.headers@) && valid_utf8(resp.1@),
    {
        let (parts, body) = resp;
        let is_urlencoded = says_form(&parts.headers);
        let reason = canonical_reason_of(parts.status);
        let body = parse_body(body, is_urlencoded);
        Response::assemble(parts, reason, body)
    }
}

} // verus!
