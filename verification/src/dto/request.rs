//! A request as it is kept.

use crate::dto::body::{BodyView, SimpleBody};
use crate::dto::cookies::Cookies;
use crate::dto::keyed::{has_key, index_ignoring_case, keys_distinct, texts};
use crate::dto::multimap::{groups_wf, groups_with_first, Groups, OrderedMultiMap};
use crate::http::message::HEADER_COOKIE;
use vstd::prelude::*;

verus! {

/// A request: whether it went to its origin over TLS, its method, the path
/// of its URI, the parameters of its query where it has a query, its
/// headers but for the cookies, its cookies where it has any, and its
/// body.
#[derive(Debug)]
pub struct Request {
    is_https: bool,
    method: String,
    path: String,
    query_params: Option<OrderedMultiMap>,
    headers: OrderedMultiMap,
    cookies: Option<Cookies>,
    body: SimpleBody,
}

/// What a [`Request`] holds, as mathematical values.
pub struct RequestView {
    pub is_https: bool,
    pub method: Seq<char>,
    pub path: Seq<char>,
    pub query_params: Option<Groups>,
    pub headers: Groups,
    pub cookies: Option<Seq<(Seq<char>, Seq<char>)>>,
    pub body: BodyView,
}

/// The groups of an optional multi-map.
pub open spec fn groups_view_of(map: Option<OrderedMultiMap>) -> Option<Groups> {
    match map {
        Some(map) => Some(map@),
        None => None,
    }
}

/// The entries of optional cookies.
pub open spec fn cookies_view_of(cookies: Option<Cookies>) -> Option<Seq<(Seq<char>, Seq<char>)>> {
    match cookies {
        Some(cookies) => Some(cookies@),
        None => None,
    }
}

/// What makes the values of a request well-formed: the groups are
/// well-formed, the cookies are not among the headers, and where there are
/// cookies there is at least one, and one for each name.
pub open spec fn request_view_wf(req: RequestView) -> bool {
    &&& req.query_params matches Some(groups) ==> groups_wf(groups)
    &&& groups_wf(req.headers)
    &&& !has_key(req.headers, HEADER_COOKIE@)
    &&& req.cookies matches Some(cookies) ==> keys_distinct(cookies) && cookies.len() > 0
    &&& req.body matches BodyView::UrlEncoded(groups) ==> groups_wf(groups)
}

impl View for Request {
    type V = RequestView;

    closed spec fn view(&self) -> RequestView {
        RequestView {
            is_https: self.is_https,
            method: self.method@,
            path: self.path@,
            query_params: groups_view_of(self.query_params),
            headers: self.headers@,
            cookies: cookies_view_of(self.cookies),
            body: self.body@,
        }
    }
}

impl Clone for Request {
    fn clone(&self) -> (r: Self)
        ensures
            self.wf() ==> r.wf(),
            r@ == self@,
    {
        Request {
            is_https: self.is_https,
            method: self.method.clone(),
            path: self.path.clone(),
            query_params: match &self.query_params {
                Some(map) => Some(map.clone()),
                None => None,
            },
            headers: self.headers.clone(),
            cookies: match &self.cookies {
                Some(cookies) => Some(cookies.clone()),
                None => None,
            },
            body: self.body.clone(),
        }
    }
}

impl Request {
    /// The parts are well-formed; the cookies are not among the headers;
    /// and where there are cookies, there is at least one.
    pub closed spec fn wf(&self) -> bool {
        &&& self.query_params matches Some(map) ==> map.wf()
        &&& self.headers.wf()
        &&& !has_key(self.headers@, HEADER_COOKIE@)
        &&& self.cookies matches Some(cookies) ==> cookies.wf() && cookies@.len() > 0
        &&& self.body.wf()
    }

    /// A well-formed request holds well-formed values.
    pub proof fn lemma_view_wf(&self)
        requires
            self.wf(),
        ensures
            request_view_wf(self@),
    {
        if let Some(map) = self.query_params {
            map.lemma_wf();
        }
        self.headers.lemma_wf();
        if let SimpleBody::UrlEncoded(form) = self.body {
            form.lemma_wf();
        }
    }

    /// A request of these parts.
    pub fn new(
        is_https: bool,
        method: String,
        path: String,
        query_params: Option<OrderedMultiMap>,
        headers: OrderedMultiMap,
        cookies: Option<Cookies>,
        body: SimpleBody,
    ) -> (r: Request)
        requires
            query_params matches Some(map) ==> map.wf(),
            headers.wf(),
            !has_key(headers@, HEADER_COOKIE@),
            cookies matches Some(cookies) ==> cookies.wf() && cookies@.len() > 0,
            body.wf(),
        ensures
            r.wf(),
            r@ == (RequestView {
                is_https,
                method: method@,
                path: path@,
                query_params: groups_view_of(query_params),
                headers: headers@,
                cookies: cookies_view_of(cookies),
                body: body@,
            }),
    {
        Request { is_https, method, path, query_params, headers, cookies, body }
    }

    /// The parts of the request, in the order of [`Request::new`].
    pub fn into_parts(self) -> (r: (
        bool,
        String,
        String,
        Option<OrderedMultiMap>,
        OrderedMultiMap,
        Option<Cookies>,
        SimpleBody,
    ))
        ensures
            self@ == (RequestView {
                is_https: r.0,
                method: r.1@,
                path: r.2@,
                query_params: groups_view_of(r.3),
                headers: r.4@,
                cookies: cookies_view_of(r.5),
                body: r.6@,
            }),
            self.wf() ==> {
                &&& r.3 matches Some(map) ==> map.wf()
                &&& r.4.wf()
                &&& !has_key(r.4@, HEADER_COOKIE@)
                &&& r.5 matches Some(cookies) ==> cookies.wf() && cookies@.len() > 0
                &&& r.6.wf()
            },
    {
        (
            self.is_https,
            self.method,
            self.path,
            self.query_params,
            self.headers,
            self.cookies,
            self.body,
        )
    }

    /// Whether the request went to its origin over TLS.
    pub fn is_https(&self) -> (r: bool)
        ensures
            r == self@.is_https,
    {
        self.is_https
    }

    /// The method.
    pub fn method(&self) -> (r: &String)
        ensures
            r@ == self@.method,
    {
        &self.method
    }

    /// The path of the URI.
    pub fn path(&self) -> (r: &String)
        ensures
            r@ == self@.path,
    {
        &self.path
    }

    /// The parameters of the query; `None` where the URI has no query.
    pub fn query_params(&self) -> (r: &Option<OrderedMultiMap>)
        ensures
            groups_view_of(*r) == self@.query_params,
            self.wf() ==> (*r matches Some(map) ==> map.wf()),
    {
        &self.query_params
    }

    /// The headers, but for the cookies.
    pub fn headers(&self) -> (r: &OrderedMultiMap)
        ensures
            r@ == self@.headers,
            self.wf() ==> r.wf() && !has_key(r@, HEADER_COOKIE@),
    {
        &self.headers
    }

    /// The values of a header, whatever the case of the letters of its
    /// name: those of the first name among the headers that is `name` but
    /// for the case of its ASCII letters.
    pub fn header(&self, name: &str) -> (r: Option<&Vec<String>>)
        requires
            self.wf(),
        ensures
            r is Some <==> index_ignoring_case(self@.headers, name@) < self@.headers.len(),
            r matches Some(values) ==> texts(values@) == self@.headers[index_ignoring_case(
                self@.headers,
                name@,
            )].1,
    {
        self.headers.get_vec_ignoring_case(name)
    }

    /// The cookies; `None` where the request has no `Cookie` header.
    pub fn cookies(&self) -> (r: &Option<Cookies>)
        ensures
            cookies_view_of(*r) == self@.cookies,
            self.wf() ==> (*r matches Some(cookies) ==> cookies.wf() && cookies@.len() > 0),
    {
        &self.cookies
    }

    /// The body.
    pub fn body(&self) -> (r: &SimpleBody)
        ensures
            r@ == self@.body,
            self.wf() ==> r.wf(),
    {
        &self.body
    }

    /// Puts `value` in the place of the first value of a parameter of the
    /// query. `false`, and no change, where the query has no such
    /// parameter.
    pub fn set_query_param(&mut self, key: &str, value: String) -> (r: bool)
        requires
            old(self).wf(),
        ensures
            final(self).wf(),
            r == (old(self)@.query_params matches Some(groups) && has_key(groups, key@)),
            final(self)@ == (RequestView {
                query_params: match old(self)@.query_params {
                    Some(groups) => Some(groups_with_first(groups, key@, value@)),
                    None => None,
                },
                ..old(self)@
            }),
    {
        match &mut self.query_params {
            Some(map) => map.set_first(key, value),
            None => false,
        }
    }

    /// Puts `value` in the place of the first value of a parameter of the
    /// form that is the body. `false`, and no change, where the body is no
    /// form or has no such parameter.
    pub fn set_form_param(&mut self, key: &str, value: String) -> (r: bool)
        requires
            old(self).wf(),
        ensures
            final(self).wf(),
            r == (old(self)@.body matches BodyView::UrlEncoded(groups) && has_key(groups, key@)),
            final(self)@ == (RequestView {
                body: match old(self)@.body {
                    BodyView::UrlEncoded(groups) => BodyView::UrlEncoded(
                        groups_with_first(groups, key@, value@),
                    ),
                    BodyView::Blob(bytes) => BodyView::Blob(bytes),
                },
                ..old(self)@
            }),
    {
        match &mut self.body {
            SimpleBody::UrlEncoded(form) => form.set_first(key, value),
            SimpleBody::Blob(_) => false,
        }
    }
}

} // verus!
