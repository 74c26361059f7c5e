//! A response as it is kept.

use crate::dto::body::{BodyView, SimpleBody};
use crate::dto::keyed::{index_ignoring_case, texts};
use crate::dto::multimap::{Groups, OrderedMultiMap};
use vstd::prelude::*;

verus! {

/// A response: its status code, the reason phrase that goes with the code,
/// its headers, and its body.
#[derive(Debug)]
pub struct Response {
    code: u16,
    message: String,
    headers: OrderedMultiMap,
    body: SimpleBody,
}

/// What a [`Response`] holds, as mathematical values.
pub struct ResponseView {
    pub code: u16,
    pub message: Seq<char>,
    pub headers: Groups,
    pub body: BodyView,
}

impl View for Response {
    type V = ResponseView;

    closed spec fn view(&self) -> ResponseView {
        ResponseView {
            code: self.code,
            message: self.message@,
            headers: self.headers@,
            body: self.body@,
        }
    }
}

impl Clone for Response {
    fn clone(&self) -> (r: Self)
        ensures
            self.wf() ==> r.wf(),
            r@ == self@,
    {
        Response {
            code: self.code,
            message: self.message.clone(),
            headers: self.headers.clone(),
            body: self.body.clone(),
        }
    }
}

impl Response {
    /// The headers and the body are well-formed.
    pub closed spec fn wf(&self) -> bool {
        &&& self.headers.wf()
        &&& self.body.wf()
    }

    /// A response of these parts.
    pub fn new(code: u16, message: String, headers: OrderedMultiMap, body: SimpleBody) -> (r:
        Response)
        requires
            headers.wf(),
            body.wf(),
        ensures
            r.wf(),
            r@ == (ResponseView { code, message: message@, headers: headers@, body: body@ }),
    {
        Response { code, message, headers, body }
    }

    /// The status code.
    pub fn code(&self) -> (r: u16)
        ensures
            r == self@.code,
    {
        self.code
    }

    /// The reason phrase.
    pub fn message(&self) -> (r: &String)
        ensures
            r@ == self@.message,
    {
        &self.message
    }

    /// The headers.
    pub fn headers(&self) -> (r: &OrderedMultiMap)
        ensures
            r@ == self@.headers,
            self.wf() ==> r.wf(),
    {
        &self.headers
    }

    /// The values of a header, whatever the case of the letters of its
    /// name: those of the first name among the headers that is `name` but
    /// for the case of its ASCII letters.
    pub fn header(&self, name: &str) -> (r: Option<&Vec<String>>)
        requires
            self.wf(),
        ensures
            r is Some <==> index_ignoring_case(self@.headers, name@) < self@.headers.len(),
            r matches Some(values) ==> texts(values@) == self@.headers[index_ignoring_case(
                self@.headers,
                name@,
            )].1,
    {
        self.headers.get_vec_ignoring_case(name)
    }

    /// The body.
    pub fn body(&self) -> (r: &SimpleBody)
        ensures
            r@ == self@.body,
            self.wf() ==> r.wf(),
    {
        &self.body
    }
}

} // verus!
