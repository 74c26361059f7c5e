//! The body of a message.

use crate::dto::form::{decode_form, form_pairs};
use crate::dto::multimap::{groups_of, Groups, OrderedMultiMap};
use crate::text::string_from_utf8;
use vstd::prelude::*;
use vstd::utf8::{decode_utf8, valid_utf8};

verus! {

/// A body: octets as they came, or the pairs of a form.
#[derive(Debug)]
pub enum SimpleBody {
    Blob(Vec<u8>),
    UrlEncoded(OrderedMultiMap),
}

/// What a [`SimpleBody`] holds, as mathematical values.
pub enum BodyView {
    Blob(Seq<u8>),
    UrlEncoded(Groups),
}

impl View for SimpleBody {
    type V = BodyView;

    open spec fn view(&self) -> BodyView {
        match self {
            SimpleBody::Blob(bytes) => BodyView::Blob(bytes@),
            SimpleBody::UrlEncoded(form) => BodyView::UrlEncoded(form@),
        }
    }
}

impl Clone for SimpleBody {
    fn clone(&self) -> (r: Self)
        ensures
            self.wf() ==> r.wf(),
            r@ == self@,
    {
        match self {
            SimpleBody::Blob(bytes) => SimpleBody::Blob(bytes.clone()),
            SimpleBody::UrlEncoded(form) => SimpleBody::UrlEncoded(form.clone()),
        }
    }
}

impl SimpleBody {
    /// The form, where the body is one, is well-formed.
    pub open spec fn wf(&self) -> bool {
        match self {
            SimpleBody::Blob(_) => true,
            SimpleBody::UrlEncoded(form) => form.wf(),
        }
    }
}

/// What a body of the given octets is: the form that the octets spell,
/// where the message says that its body is a form and the octets are UTF-8;
/// else the octets.
pub open spec fn spec_parse_body(bytes: Seq<u8>, is_urlencoded: bool) -> BodyView {
    if is_urlencoded && valid_utf8(bytes) {
        BodyView::UrlEncoded(groups_of(form_pairs(decode_utf8(bytes))))
    } else {
        BodyView::Blob(bytes)
    }
}

/// The body as octets.
pub fn body_as_blob(b: Vec<u8>) -> (r: Vec<u8>)
    ensures
        r@ == b@,
{
    b
}

/// The body as a form: the pairs that its text spells. `None` where the
/// octets are not UTF-8.
pub fn body_as_url_encoded(b: &Vec<u8>) -> (r: Option<OrderedMultiMap>)
    ensures
        r is Some <==> valid_utf8(b@),
        r matches Some(form) ==> form.wf() && form@ == groups_of(form_pairs(decode_utf8(b@))),
{
    match string_from_utf8(b.as_slice()) {
        Some(text) => {
            let pairs = decode_form(text.as_str());
            Some(OrderedMultiMap::from_pairs(&pairs))
        },
        None => None,
    }
}

/// Classifies a body. It is a form exactly when the message says so and
/// its octets are UTF-8; any other body stays as it came.
pub fn parse_body(b: Vec<u8>, is_urlencoded: bool) -> (r: SimpleBody)
    ensures
        r.wf(),
        r@ == spec_parse_body(b@, is_urlencoded),
        r is UrlEncoded <==> is_urlencoded && valid_utf8(b@),
{
    if is_urlencoded {
        match body_as_url_encoded(&b) {
            Some(form) => SimpleBody::UrlEncoded(form),
            None => SimpleBody::Blob(body_as_blob(b)),
        }
    } else {
        SimpleBody::Blob(body_as_blob(b))
    }
}

} // verus!
