//! The parts of an HTTP message as plain values: what a request or a
//! response carries on the wire, without its body.

use crate::http::parser::primitives::spec_is_part_of_token;
use crate::text::{ascii_string, ascii_text, clone_text, text_of};
use vstd::prelude::*;
use vstd::string::StringSliceAdditionalSpecFns;

verus! {

/// The protocol versions that the proxy speaks.
#[derive(Clone, Copy, Debug, PartialEq, Eq)]
pub enum Version {
    Http10,
    Http11,
}

/// The name of the header that marks a request as sent to a proxy.
pub const HEADER_PROXY_CONNECTION: &'static str = "proxy-connection";

/// The name of the header that names the origin.
pub const HEADER_HOST: &'static str = "host";

/// The name of the header that carries the cookies.
pub const HEADER_COOKIE: &'static str = "cookie";

/// The name of the header that says what the body is.
pub const HEADER_CONTENT_TYPE: &'static str = "content-type";

/// Whether a header value may hold the octet: anything from 32 up but 127,
/// and the tab.
pub open spec fn spec_is_value_octet(b: u8) -> bool {
    b >= 32 && b != 127 || b == 9
}

/// Every octet may stand in a header value.
pub open spec fn is_value_text(bytes: Seq<u8>) -> bool {
    forall|i: int| 0 <= i < bytes.len() ==> spec_is_value_octet(#[trigger] bytes[i])
}

/// At least one octet, and each a token octet: what a method is made of.
pub open spec fn is_method_text(bytes: Seq<u8>) -> bool {
    &&& bytes.len() > 0
    &&& forall|i: int| 0 <= i < bytes.len() ==> spec_is_part_of_token(#[trigger] bytes[i])
}

/// Whether the octet is a visible ASCII character, a space or a tab.
pub open spec fn spec_is_visible_ascii(b: u8) -> bool {
    b >= 32 && b < 127 || b == 9
}

/// Every octet is a visible ASCII character, a space or a tab.
pub open spec fn is_visible_text(bytes: Seq<u8>) -> bool {
    forall|i: int| 0 <= i < bytes.len() ==> spec_is_visible_ascii(#[trigger] bytes[i])
}

/// What `http::HeaderName::from_bytes` makes of the octets: the normalised
/// name, where they are a header name.
pub uninterp spec fn header_name_text(src: Seq<u8>) -> Option<Seq<char>>;

/// What `http::Uri` reads in the octets, where they are a URI.
pub uninterp spec fn uri_reference(src: Seq<u8>) -> Option<UriView>;

/// What `http::uri::PathAndQuery` reads in the text, where it is the target
/// of a request in origin form: the path and the query.
pub uninterp spec fn origin_form(src: Seq<char>) -> Option<(Seq<char>, Option<Seq<char>>)>;

/// The reason phrase that `http::StatusCode::canonical_reason` gives for the
/// code, where it has one.
pub uninterp spec fn canonical_reason(code: u16) -> Option<Seq<char>>;

/// `http::HeaderName::from_bytes`: the normalised name, as text.
#[verifier::external_body]
pub(crate) fn header_name_from_bytes(src: &[u8]) -> (r: Option<String>)
    ensures
        text_of(r) == header_name_text(src@),
{
    match ::http::HeaderName::from_bytes(src) {
        Ok(name) => Some(name.as_str().to_owned()),
        Err(_) => None,
    }
}

/// `http::HeaderValue::from_bytes`: accepts the octets exactly when each may
/// stand in a header value, and keeps them as they are.
#[verifier::external_body]
pub(crate) fn header_value_from_bytes(src: &[u8]) -> (r: Option<Vec<u8>>)
    ensures
        r is Some <==> is_value_text(src@),
        r matches Some(bytes) ==> bytes@ == src@,
{
    match ::http::HeaderValue::from_bytes(src) {
        Ok(value) => Some(value.as_bytes().to_vec()),
        Err(_) => None,
    }
}

/// `http::Method::from_bytes`: accepts the octets exactly when there is at
/// least one and each is a token octet, and keeps them as they are.
#[verifier::external_body]
pub(crate) fn method_from_bytes(src: &[u8]) -> (r: Option<String>)
    ensures
        r is Some <==> is_method_text(src@),
        r matches Some(method) ==> method@ == ascii_text(src@),
{
    match ::http::Method::from_bytes(src) {
        Ok(method) => Some(method.as_str().to_owned()),
        Err(_) => None,
    }
}

/// `http::Uri::try_from` on octets, and the accessors of the `Uri` it gives.
#[verifier::external_body]
pub(crate) fn uri_from_bytes(src: &[u8]) -> (r: Option<Uri>)
    ensures
        uri_view_of(r) == uri_reference(src@),
{
    match ::http::Uri::try_from(src) {
        Ok(uri) => Some(
            Uri {
                scheme: uri.scheme_str().map(|s| s.to_owned()),
                host: uri.host().map(|s| s.to_owned()),
                port: uri.port_u16(),
                path: uri.path().to_owned(),
                query: uri.query().map(|s| s.to_owned()),
            },
        ),
        Err(_) => None,
    }
}

/// `http::uri::PathAndQuery::try_from` on text, with its `path` and `query`.
#[verifier::external_body]
pub(crate) fn origin_form_from_str(src: &str) -> (r: Option<(String, Option<String>)>)
    ensures
        origin_form_view_of(r) == origin_form(src@),
{
    match ::http::uri::PathAndQuery::try_from(src) {
        Ok(target) => Some((target.path().to_owned(), target.query().map(|s| s.to_owned()))),
        Err(_) => None,
    }
}

/// `http::StatusCode::from_u16` and `canonical_reason` on the code it gives.
#[verifier::external_body]
pub(crate) fn canonical_reason_of(code: u16) -> (r: Option<String>)
    ensures
        text_of(r) == canonical_reason(code),
{
    match ::http::StatusCode::from_u16(code) {
        Ok(status) => status.canonical_reason().map(|s| s.to_owned()),
        Err(_) => None,
    }
}

/// The view of an optional header value.
pub open spec fn value_view_of(value: Option<&HeaderValue>) -> Option<Seq<u8>> {
    match value {
        Some(value) => Some(value@),
        None => None,
    }
}

/// The view of an optional URI.
pub open spec fn uri_view_of(uri: Option<Uri>) -> Option<UriView> {
    match uri {
        Some(uri) => Some(uri@),
        None => None,
    }
}

/// The view of an optional path and query.
pub open spec fn origin_form_view_of(target: Option<(String, Option<String>)>) -> Option<
    (Seq<char>, Option<Seq<char>>),
> {
    match target {
        Some((path, query)) => Some((path@, text_of(query))),
        None => None,
    }
}

/// A URI, taken apart. A request in origin form has a path and perhaps a
/// query; one in absolute form has a scheme and a host as well; the target
/// of `CONNECT` has a host and a port only.
#[derive(Debug, PartialEq, Eq)]
pub struct Uri {
    pub scheme: Option<String>,
    pub host: Option<String>,
    pub port: Option<u16>,
    pub path: String,
    pub query: Option<String>,
}

/// What a [`Uri`] holds, as mathematical values.
pub struct UriView {
    pub scheme: Option<Seq<char>>,
    pub host: Option<Seq<char>>,
    pub port: Option<u16>,
    pub path: Seq<char>,
    pub query: Option<Seq<char>>,
}

impl View for Uri {
    type V = UriView;

    open spec fn view(&self) -> UriView {
        UriView {
            scheme: text_of(self.scheme),
            host: text_of(self.host),
            port: self.port,
            path: self.path@,
            query: text_of(self.query),
        }
    }
}

impl Clone for Uri {
    fn clone(&self) -> (r: Self)
        ensures
            r@ == self@,
    {
        Uri {
            scheme: clone_text(&self.scheme),
            host: clone_text(&self.host),
            port: self.port,
            path: self.path.clone(),
            query: clone_text(&self.query),
        }
    }
}

impl Uri {
    /// Reads a URI in any of the forms that a request line may hold.
    /// `None` where the octets are no URI.
    pub fn parse(src: &[u8]) -> (r: Option<Uri>)
        ensures
            uri_view_of(r) == uri_reference(src@),
    {
        uri_from_bytes(src)
    }
}

/// The value of a header field: octets, not always text.
#[derive(Debug, PartialEq, Eq)]
pub struct HeaderValue {
    bytes: Vec<u8>,
}

impl View for HeaderValue {
    type V = Seq<u8>;

    closed spec fn view(&self) -> Seq<u8> {
        self.bytes@
    }
}

impl Clone for HeaderValue {
    fn clone(&self) -> (r: Self)
        ensures
            r@ == self@,
    {
        HeaderValue { bytes: self.bytes.clone() }
    }
}

impl HeaderValue {
    /// A header value of these octets; `None` where one of them may not
    /// stand in a header value.
    pub fn from_bytes(src: &[u8]) -> (r: Option<HeaderValue>)
        ensures
            r is Some <==> is_value_text(src@),
            r matches Some(value) ==> value@ == src@,
    {
        match header_value_from_bytes(src) {
            Some(bytes) => Some(HeaderValue { bytes }),
            None => None,
        }
    }

    /// The octets of the value.
    pub fn as_bytes(&self) -> (r: &[u8])
        ensures
            r@ == self@,
    {
        self.bytes.as_slice()
    }

    /// The value as text, where it holds visible ASCII, spaces and tabs
    /// only.
    pub fn to_str(&self) -> (r: Option<String>)
        ensures
            r is Some <==> is_visible_text(self@),
            r matches Some(s) ==> s@ == ascii_text(self@),
    {
        let n = self.bytes.len();
        let mut idx: usize = 0;
        while idx < n
            invariant
                0 <= idx <= n,
                n == self.bytes@.len(),
                forall|j: int| 0 <= j < idx ==> spec_is_visible_ascii(#[trigger] self.bytes@[j]),
            decreases n - idx,
        {
            let b = self.bytes[idx];
            if !(b >= 32 && b < 127 || b == 9) {
                return None;
            }
            idx += 1;
        }
        Some(ascii_string(self.bytes.as_slice()))
    }
}

/// One header field.
#[derive(Debug, PartialEq, Eq)]
pub struct HeaderField {
    pub name: String,
    pub value: HeaderValue,
}

/// The header fields of a message, in the order in which they came. Names
/// are held normalised, in lower case, and are looked up as they are held.
#[derive(Debug, PartialEq, Eq)]
pub struct Headers {
    fields: Vec<HeaderField>,
}

/// Every value is text: visible ASCII, spaces and tabs.
pub open spec fn headers_are_text(fields: Seq<(Seq<char>, Seq<u8>)>) -> bool {
    forall|i: int| 0 <= i < fields.len() ==> is_visible_text((#[trigger] fields[i]).1)
}

/// The fields without those of the given name, the others in their order.
pub open spec fn without_name(fields: Seq<(Seq<char>, Seq<u8>)>, name: Seq<char>) -> Seq<
    (Seq<char>, Seq<u8>),
>
    decreases fields.len(),
{
    if fields.len() == 0 {
        fields
    } else if fields.last().0 == name {
        without_name(fields.drop_last(), name)
    } else {
        without_name(fields.drop_last(), name).push(fields.last())
    }
}

/// Whether a field of the given name is among the fields.
pub open spec fn has_name(fields: Seq<(Seq<char>, Seq<u8>)>, name: Seq<char>) -> bool {
    exists|i: int| 0 <= i < fields.len() && (#[trigger] fields[i]).0 == name
}

/// The value of the first field of the given name.
pub open spec fn first_value(fields: Seq<(Seq<char>, Seq<u8>)>, name: Seq<char>) -> Option<Seq<u8>>
    decreases fields.len(),
{
    if fields.len() == 0 {
        None
    } else if fields[0].0 == name {
        Some(fields[0].1)
    } else {
        first_value(fields.drop_first(), name)
    }
}

/// The first field of a name is the one that no field of that name
/// precedes; where there is no field of the name there is no first.
pub proof fn lemma_first_value(fields: Seq<(Seq<char>, Seq<u8>)>, name: Seq<char>)
    ensures
        first_value(fields, name) is Some <==> has_name(fields, name),
        forall|i: int|
            first_of_name(fields, name, i) ==> first_value(fields, name) == Some(fields[i].1),
    decreases fields.len(),
{
    if fields.len() > 0 {
        let rest = fields.drop_first();
        lemma_first_value(rest, name);
        if fields[0].0 == name {
            assert(has_name(fields, name));
            assert forall|i: int| first_of_name(fields, name, i) implies i == 0 by {
                if i > 0 {
                    assert(fields[0].0 != name);
                }
            }
        } else {
            if has_name(fields, name) {
                let i = choose|i: int| 0 <= i < fields.len() && (#[trigger] fields[i]).0 == name;
                assert(rest[i - 1].0 == name);
            }
            if has_name(rest, name) {
                let i = choose|i: int| 0 <= i < rest.len() && (#[trigger] rest[i]).0 == name;
                assert(fields[i + 1].0 == name);
            }
            assert forall|i: int| first_of_name(fields, name, i) implies first_value(fields, name)
                == Some(fields[i].1) by {
                assert(rest[i - 1] == fields[i]);
                assert forall|j: int| 0 <= j < i - 1 implies (#[trigger] rest[j]).0 != name by {
                    assert(rest[j] == fields[j + 1]);
                }
                assert(first_of_name(rest, name, i - 1));
            }
        }
    }
}

/// `i` is the index of the first field of the given name.
pub open spec fn first_of_name(fields: Seq<(Seq<char>, Seq<u8>)>, name: Seq<char>, i: int) -> bool {
    &&& 0 <= i < fields.len()
    &&& fields[i].0 == name
    &&& forall|j: int| 0 <= j < i ==> (#[trigger] fields[j]).0 != name
}

/// Taking out the fields of one name leaves the fields of another.
pub proof fn lemma_without_name_keeps(
    fields: Seq<(Seq<char>, Seq<u8>)>,
    name: Seq<char>,
    other: Seq<char>,
)
    requires
        other != name,
    ensures
        has_name(without_name(fields, name), other) <==> has_name(fields, other),
    decreases fields.len(),
{
    if fields.len() > 0 {
        let rest = fields.drop_last();
        lemma_without_name_keeps(rest, name, other);
        let kept = without_name(rest, name);
        let out = without_name(fields, name);
        if has_name(out, other) {
            let i = choose|i: int| 0 <= i < out.len() && (#[trigger] out[i]).0 == other;
            if i < kept.len() {
                assert(kept[i].0 == other);
                let k = choose|k: int| 0 <= k < rest.len() && (#[trigger] rest[k]).0 == other;
                assert(fields[k].0 == other);
            } else {
                assert(fields[fields.len() - 1].0 == other);
            }
        }
        if has_name(fields, other) {
            let i = choose|i: int| 0 <= i < fields.len() && (#[trigger] fields[i]).0 == other;
            if i < rest.len() {
                assert(rest[i].0 == other);
                let k = choose|k: int| 0 <= k < kept.len() && (#[trigger] kept[k]).0 == other;
                assert(out[k].0 == other);
            } else {
                assert(out[out.len() - 1].0 == other);
            }
        }
    }
}

/// What is left after the fields of a name are taken out holds none of
/// that name.
pub proof fn lemma_without_name(fields: Seq<(Seq<char>, Seq<u8>)>, name: Seq<char>)
    ensures
        !has_name(without_name(fields, name), name),
        without_name(fields, name).len() <= fields.len(),
    decreases fields.len(),
{
    if fields.len() > 0 {
        let rest = fields.drop_last();
        lemma_without_name(rest, name);
        let kept = without_name(rest, name);
        let out = without_name(fields, name);
        if has_name(out, name) {
            let i = choose|i: int| 0 <= i < out.len() && (#[trigger] out[i]).0 == name;
            assert(kept[i].0 == name);
        }
    }
}

impl View for Headers {
    type V = Seq<(Seq<char>, Seq<u8>)>;

    closed spec fn view(&self) -> Seq<(Seq<char>, Seq<u8>)> {
        Seq::new(self.fields@.len(), |i: int| (self.fields@[i].name@, self.fields@[i].value@))
    }
}

impl Clone for Headers {
    fn clone(&self) -> (r: Self)
        ensures
            r@ == self@,
    {
        let mut fields: Vec<HeaderField> = Vec::new();
        let n = self.fields.len();
        let mut i: usize = 0;
        while i < n
            invariant
                0 <= i <= n,
                n == self.fields@.len(),
                fields@.len() == i,
                forall|j: int|
                    0 <= j < i ==> (#[trigger] fields@[j]).name@ == self.fields@[j].name@
                        && fields@[j].value@ == self.fields@[j].value@,
            decreases n - i,
        {
            fields.push(
                HeaderField {
                    name: self.fields[i].name.clone(),
                    value: self.fields[i].value.clone(),
                },
            );
            i += 1;
        }
        let r = Headers { fields };
        assert(r@ =~= self@);
        r
    }
}

impl Headers {
    /// No fields.
    pub fn new() -> (r: Headers)
        ensures
            r@ == Seq::<(Seq<char>, Seq<u8>)>::empty(),
    {
        Headers { fields: Vec::new() }
    }

    /// Adds a field after those that are there. The name is normalised as
    /// `http` normalises header names; where it is no header name, nothing
    /// is added and the answer is `false`.
    pub fn append(&mut self, name: &str, value: HeaderValue) -> (r: bool)
        ensures
            match header_name_text(name.spec_bytes()) {
                Some(normalised) => r && final(self)@ == old(self)@.push((normalised, value@)),
                None => !r && final(self)@ == old(self)@,
            },
    {
        match header_name_from_bytes(name.as_bytes()) {
            Some(normalised) => {
                self.fields.push(HeaderField { name: normalised, value });
                assert(self@ =~= old(self)@.push((normalised@, value@)));
                true
            },
            None => false,
        }
    }

    /// Adds a field after those that are there, under the name as it is
    /// given.
    pub fn push_field(&mut self, name: String, value: HeaderValue)
        ensures
            final(self)@ == old(self)@.push((name@, value@)),
    {
        self.fields.push(HeaderField { name, value });
        assert(self@ =~= old(self)@.push((name@, value@)));
    }

    /// Whether every value is text: visible ASCII, spaces and tabs.
    pub fn is_text(&self) -> (r: bool)
        ensures
            r == headers_are_text(self@),
    {
        let n = self.fields.len();
        let mut i: usize = 0;
        while i < n
            invariant
                0 <= i <= n,
                n == self.fields@.len(),
                forall|j: int| 0 <= j < i ==> is_visible_text((#[trigger] self@[j]).1),
            decreases n - i,
        {
            if self.fields[i].value.to_str().is_none() {
                assert(!is_visible_text(self@[i as int].1));
                return false;
            }
            i += 1;
        }
        true
    }

    /// The number of fields.
    pub fn len(&self) -> (r: usize)
        ensures
            r == self@.len(),
    {
        self.fields.len()
    }

    /// The name of the field at `i`.
    pub fn name_at(&self, i: usize) -> (r: &String)
        requires
            i < self@.len(),
        ensures
            r@ == self@[i as int].0,
    {
        &self.fields[i].name
    }

    /// The value of the field at `i`.
    pub fn value_at(&self, i: usize) -> (r: &HeaderValue)
        requires
            i < self@.len(),
        ensures
            r@ == self@[i as int].1,
    {
        &self.fields[i].value
    }

    /// The value of the first field of the given name.
    pub fn get(&self, name: &str) -> (r: Option<&HeaderValue>)
        ensures
            r is Some <==> has_name(self@, name@),
            value_view_of(r) == first_value(self@, name@),
    {
        let wanted = name.to_owned();
        let n = self.fields.len();
        let mut idx: usize = 0;
        while idx < n
            invariant
                0 <= idx <= n,
                n == self.fields@.len(),
                wanted@ == name@,
                forall|j: int| 0 <= j < idx ==> (#[trigger] self@[j]).0 != name@,
            decreases n - idx,
        {
            if self.fields[idx].name == wanted {
                proof {
                    assert(first_of_name(self@, name@, idx as int));
                    lemma_first_value(self@, name@);
                }
                return Some(&self.fields[idx].value);
            }
            idx += 1;
        }
        proof {
            lemma_first_value(self@, name@);
        }
        None
    }

    /// Whether a field of the given name is there.
    pub fn contains_key(&self, name: &str) -> (r: bool)
        ensures
            r == has_name(self@, name@),
    {
        self.get(name).is_some()
    }

    /// Takes out every field of the given name.
    pub fn remove(&mut self, name: &str)
        ensures
            final(self)@ == without_name(old(self)@, name@),
            !has_name(final(self)@, name@),
    {
        let wanted = name.to_owned();
        let ghost before = self@;
        let ghost mut done: int = 0;
        let mut idx: usize = 0;
        while idx < self.fields.len()
            invariant
                wanted@ == name@,
                0 <= done <= before.len(),
                0 <= idx <= self.fields@.len(),
                self.fields@.len() - idx == before.len() - done,
                self@.take(idx as int) == without_name(before.take(done), name@),
                self@.skip(idx as int) == before.skip(done),
            decreases self.fields@.len() - idx,
        {
            let ghost current = self@;
            proof {
                assert(current[idx as int] == current.skip(idx as int)[0]);
                assert(before[done] == before.skip(done)[0]);
                assert(before.take(done + 1).drop_last() =~= before.take(done));
                assert(before.take(done + 1).last() == before[done]);
            }
            if self.fields[idx].name == wanted {
                self.fields.remove(idx);
                proof {
                    assert(self@ =~= current.remove(idx as int));
                    assert(self@.take(idx as int) =~= current.take(idx as int));
                    assert(self@.skip(idx as int) =~= current.skip(idx as int).skip(1));
                    assert(before.skip(done + 1) =~= before.skip(done).skip(1));
                }
            } else {
                proof {
                    assert(current.take(idx + 1) =~= current.take(idx as int).push(
                        current[idx as int],
                    ));
                    assert(current.skip(idx + 1) =~= current.skip(idx as int).skip(1));
                    assert(before.skip(done + 1) =~= before.skip(done).skip(1));
                }
                idx += 1;
            }
            proof {
                done = done + 1;
            }
        }
        proof {
            assert(self@.take(idx as int) =~= self@);
            assert(before.take(done) =~= before);
            lemma_without_name(before, name@);
        }
    }
}

/// The head of a request: everything but the body.
#[derive(Debug, PartialEq, Eq)]
pub struct RequestParts {
    pub method: String,
    pub uri: Uri,
    pub version: Version,
    pub headers: Headers,
}

impl Clone for RequestParts {
    fn clone(&self) -> (r: Self)
        ensures
            r.method@ == self.method@,
            r.uri@ == self.uri@,
            r.version == self.version,
            r.headers@ == self.headers@,
    {
        RequestParts {
            method: self.method.clone(),
            uri: self.uri.clone(),
            version: self.version,
            headers: self.headers.clone(),
        }
    }
}

impl Clone for ResponseParts {
    fn clone(&self) -> (r: Self)
        ensures
            r.status == self.status,
            r.version == self.version,
            r.headers@ == self.headers@,
    {
        ResponseParts {
            status: self.status,
            version: self.version,
            headers: self.headers.clone(),
        }
    }
}

/// The head of a response: everything but the body.
#[derive(Debug, PartialEq, Eq)]
pub struct ResponseParts {
    pub status: u16,
    pub version: Version,
    pub headers: Headers,
}

} // verus!
