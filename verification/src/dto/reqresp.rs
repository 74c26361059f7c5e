//! A capture: a request and the response that it got.

use crate::dto::request::{Request, RequestView};
use crate::dto::response::{Response, ResponseView};
use vstd::prelude::*;

verus! {

/// A request with its response, under the identifier that the store gave
/// the pair. A capture that is not stored yet has no identifier.
#[derive(Debug)]
pub struct Reqresp {
    pub id: String,
    pub req: Request,
    pub resp: Response,
}

/// What a [`Reqresp`] holds, as mathematical values.
pub struct ReqrespView {
    pub id: Seq<char>,
    pub req: RequestView,
    pub resp: ResponseView,
}

impl View for Reqresp {
    type V = ReqrespView;

    open spec fn view(&self) -> ReqrespView {
        ReqrespView { id: self.id@, req: self.req@, resp: self.resp@ }
    }
}

impl Clone for Reqresp {
    fn clone(&self) -> (r: Self)
        ensures
            self.wf() ==> r.wf(),
            r@ == self@,
    {
        Reqresp { id: self.id.clone(), req: self.req.clone(), resp: self.resp.clone() }
    }
}

impl Reqresp {
    /// The request and the response are well-formed.
    pub open spec fn wf(&self) -> bool {
        self.req.wf() && self.resp.wf()
    }

    /// A capture that is not stored yet: its identifier is empty.
    pub fn new(req: Request, resp: Response) -> (r: Reqresp)
        ensures
            r.id@ == Seq::<char>::empty(),
            r.req == req,
            r.resp == resp,
    {
        Reqresp { id: String::new(), req, resp }
    }
}

} // verus!
