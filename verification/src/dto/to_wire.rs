//! From the model to the wire: the message that a kept request is when it
//! is sent again.

use crate::dto::body::{BodyView, SimpleBody};
use crate::dto::form::{encode_form, form_text};
use crate::dto::keyed::pair_texts;
use crate::dto::multimap::{pairs_of, Groups, OrderedMultiMap};
use crate::dto::request::{Request, RequestView};
use crate::dto::wire::{wire_view_of, WireRequest, WireRequestView};
use crate::http::message::{
    header_name_text, is_method_text, is_value_text, method_from_bytes, origin_form,
    origin_form_from_str, HeaderValue, Headers, RequestParts, Uri, UriView, Version,
    HEADER_COOKIE,
};
use crate::text::text_of;
use vstd::prelude::*;
use vstd::slice::slice_to_vec;
use vstd::string::StringExecFns;
use vstd::utf8::encode_utf8;

verus! {

/// The pairs written one after the other, `key=value`, with `sep` between
/// them.
pub open spec fn joined(pairs: Seq<(Seq<char>, Seq<char>)>, sep: Seq<char>) -> Seq<char>
    decreases pairs.len(),
{
    if pairs.len() == 0 {
        Seq::empty()
    } else if pairs.len() == 1 {
        pairs[0].0 + "="@ + pairs[0].1
    } else {
        joined(pairs.drop_last(), sep) + sep + pairs.last().0 + "="@ + pairs.last().1
    }
}

/// The target of the request in origin form: the path, and after a `?` the
/// parameters of the query, parted by `&`, where the request has a query.
pub open spec fn target_text(path: Seq<char>, query_params: Option<Groups>) -> Seq<char> {
    match query_params {
        Some(groups) => path + "?"@ + joined(pairs_of(groups), "&"@),
        None => path,
    }
}

/// The value of the `Cookie` header: the cookies parted by `; `.
pub open spec fn cookie_text(cookies: Seq<(Seq<char>, Seq<char>)>) -> Seq<char> {
    joined(cookies, "; "@)
}

/// The header fields that pairs of texts make: each name as `http`
/// normalises it, each value as its octets. `None` where a name is no header
/// name or a value may not stand in a header.
pub open spec fn wire_fields(pairs: Seq<(Seq<char>, Seq<char>)>) -> Option<
    Seq<(Seq<char>, Seq<u8>)>,
>
    decreases pairs.len(),
{
    if pairs.len() == 0 {
        Some(Seq::empty())
    } else {
        match (
            wire_fields(pairs.drop_last()),
            header_name_text(encode_utf8(pairs.last().0)),
        ) {
            (Some(fields), Some(name)) => if is_value_text(encode_utf8(pairs.last().1)) {
                Some(fields.push((name, encode_utf8(pairs.last().1))))
            } else {
                None
            },
            _ => None,
        }
    }
}

/// The octets of a body on the wire: a form is written as `url_encoded_data`
/// writes its pairs.
pub open spec fn body_bytes(body: BodyView) -> Seq<u8> {
    match body {
        BodyView::Blob(bytes) => bytes,
        BodyView::UrlEncoded(groups) => encode_utf8(form_text(pairs_of(groups))),
    }
}

/// The message that a request is on the wire, given what `http` reads in
/// its target. There is none where the method is no method, the target no
/// target, a header no header, or the cookies no header value.
pub open spec fn spec_into(req: RequestView, target: Option<(Seq<char>, Option<Seq<char>>)>) -> Option<
    WireRequestView,
> {
    match (target, wire_fields(pairs_of(req.headers))) {
        (Some((path, query)), Some(fields)) => {
            if !is_method_text(encode_utf8(req.method)) {
                None
            } else {
                let uri = UriView { scheme: None, host: None, port: None, path, query };
                match req.cookies {
                    None => Some(
                        WireRequestView {
                            method: req.method,
                            uri,
                            version: Version::Http11,
                            fields,
                            body: body_bytes(req.body),
                            is_https: req.is_https,
                        },
                    ),
                    Some(cookies) => {
                        let value = encode_utf8(cookie_text(cookies));
                        if is_value_text(value) {
                            Some(
                                WireRequestView {
                                    method: req.method,
                                    uri,
                                    version: Version::Http11,
                                    fields: fields.push((HEADER_COOKIE@, value)),
                                    body: body_bytes(req.body),
                                    is_https: req.is_https,
                                },
                            )
                        } else {
                            None
                        }
                    },
                }
            }
        },
        _ => None,
    }
}

/// Writes pairs one after the other, `key=value`, with `sep` between them.
pub fn join_pairs(pairs: &Vec<(String, String)>, sep: &str) -> (r: String)
    ensures
        r@ == joined(pair_texts(pairs@), sep@),
{
    let mut out = String::new();
    let n = pairs.len();
    let mut i: usize = 0;
    assert(pair_texts(pairs@).take(0) =~= Seq::<(Seq<char>, Seq<char>)>::empty());
    while i < n
        invariant
            0 <= i <= n,
            n == pairs@.len(),
            out@ == joined(pair_texts(pairs@).take(i as int), sep@),
        decreases n - i,
    {
        let ghost all = pair_texts(pairs@);
        let ghost before = out@;
        proof {
            assert(all.take(i + 1).drop_last() =~= all.take(i as int));
            assert(all.take(i + 1).last() == all[i as int]);
            assert(all.take(i + 1)[0] == all[0]);
        }
        if i > 0 {
            out.append(sep);
        }
        out.append(pairs[i].0.as_str());
        out.append("=");
        out.append(pairs[i].1.as_str());
        proof {
            if i > 0 {
                assert(out@ =~= before + sep@ + all[i as int].0 + "="@ + all[i as int].1);
            } else {
                assert(before =~= Seq::<char>::empty());
                assert(out@ =~= all[0].0 + "="@ + all[0].1);
            }
        }
        i += 1;
    }
    assert(pair_texts(pairs@).take(n as int) =~= pair_texts(pairs@));
    out
}

/// The target of a request in origin form.
pub fn request_target(path: &String, query_params: &Option<OrderedMultiMap>) -> (r: String)
    requires
        *query_params matches Some(map) ==> map.wf(),
    ensures
        r@ == target_text(
            path@,
            match *query_params {
                Some(map) => Some(map@),
                None => None,
            },
        ),
{
    match query_params {
        Some(map) => {
            let pairs = map.to_pairs();
            let query = join_pairs(&pairs, "&");
            let mut target = path.clone();
            target.append("?");
            target.append(query.as_str());
            assert(target@ =~= path@ + "?"@ + query@);
            target
        },
        None => path.clone(),
    }
}

/// The header fields that the headers of a request make on the wire.
pub fn headers_to_wire(headers: &OrderedMultiMap) -> (r: Option<Headers>)
    requires
        headers.wf(),
    ensures
        match wire_fields(pairs_of(headers@)) {
            Some(fields) => r matches Some(out) && out@ == fields,
            None => r is None,
        },
{
    let pairs = headers.to_pairs();
    let ghost all = pair_texts(pairs@);
    let mut out = Headers::new();
    let n = pairs.len();
    let mut i: usize = 0;
    assert(all.take(0) =~= Seq::<(Seq<char>, Seq<char>)>::empty());
    while i < n
        invariant
            0 <= i <= n,
            n == pairs@.len(),
            all == pair_texts(pairs@),
            all == pairs_of(headers@),
            wire_fields(all.take(i as int)) == Some(out@),
        decreases n - i,
    {
        proof {
            assert(all.take(i + 1).drop_last() =~= all.take(i as int));
            assert(all.take(i + 1).last() == all[i as int]);
        }
        let value = match HeaderValue::from_bytes(pairs[i].1.as_str().as_bytes()) {
            Some(value) => value,
            None => {
                proof {
                    lemma_wire_fields_prefix(all, i + 1);
                }
                return None;
            },
        };
        if !out.append(pairs[i].0.as_str(), value) {
            proof {
                lemma_wire_fields_prefix(all, i + 1);
            }
            return None;
        }
        i += 1;
    }
    assert(all.take(n as int) =~= all);
    Some(out)
}

/// Where a prefix of the pairs makes no header fields, the pairs make
/// none.
pub proof fn lemma_wire_fields_prefix(pairs: Seq<(Seq<char>, Seq<char>)>, n: int)
    requires
        0 <= n <= pairs.len(),
        wire_fields(pairs.take(n)) is None,
    ensures
        wire_fields(pairs) is None,
    decreases pairs.len() - n,
{
    if n < pairs.len() {
        assert(pairs.take(n + 1).drop_last() =~= pairs.take(n));
        lemma_wire_fields_prefix(pairs, n + 1);
    } else {
        assert(pairs.take(n) =~= pairs);
    }
}

/// The octets of a body on the wire.
pub fn body_to_wire(body: &SimpleBody) -> (r: Vec<u8>)
    requires
        body.wf(),
    ensures
        r@ == body_bytes(body@),
{
    match body {
        SimpleBody::Blob(bytes) => bytes.clone(),
        SimpleBody::UrlEncoded(form) => {
            let pairs = form.to_pairs();
            let text = encode_form(&pairs);
            slice_to_vec(text.as_str().as_bytes())
        },
    }
}

impl Request {
    /// The message that the request is on the wire, once `http` has read
    /// its target: `target` is what it read.
    pub fn into_with(self, target: Option<(String, Option<String>)>) -> (r: Option<WireRequest>)
        requires
            self.wf(),
        ensures
            wire_view_of(r) == spec_into(
                self@,
                match target {
                    Some((path, query)) => Some((path@, text_of(query))),
                    None => None,
                },
            ),
    {
        let (is_https, method, _, _, headers, cookies, body) = self.into_parts();
        let (path, query) = match target {
            Some(target) => target,
            None => {
                return None;
            },
        };
        let mut fields = match headers_to_wire(&headers) {
            Some(fields) => fields,
            None => {
                return None;
            },
        };
        if method_from_bytes(method.as_str().as_bytes()).is_none() {
            return None;
        }
        if let Some(cookies) = cookies {
            let pairs = cookies.to_pairs();
            let text = join_pairs(&pairs, "; ");
            match HeaderValue::from_bytes(text.as_str().as_bytes()) {
                Some(value) => {
                    fields.push_field(HEADER_COOKIE.to_owned(), value);
                },
                None => {
                    return None;
                },
            }
        }
        let body = body_to_wire(&body);
        let uri = Uri { scheme: None, host: None, port: None, path, query };
        Some((RequestParts { method, uri, version: Version::Http11, headers: fields }, body, is_https))
    }

    /// The message that the request is on the wire: its target in origin
    /// form, its headers, its cookies in one `Cookie` header after them, and
    /// its body. `None` where some part of it cannot stand in a message.
    pub fn into(self) -> (r: Option<WireRequest>)
        requires
            self.wf(),
        ensures
            wire_view_of(r) == spec_into(
                self@,
                origin_form(target_text(self@.path, self@.query_params)),
            ),
    {
        let target = request_target(self.path(), self.query_params());
        let parsed = origin_form_from_str(target.as_str());
        self.into_with(parsed)
    }
}

} // verus!
