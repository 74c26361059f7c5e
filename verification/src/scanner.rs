//! The scanner: what is sent again, with what in it, and what an answer
//! shows.

use crate::dto::body::{BodyView, SimpleBody};
use crate::dto::keyed::{pair_texts, texts};
use crate::dto::multimap::{groups_with_first, pairs_of, Groups};
use crate::dto::reqresp::Reqresp;
use crate::dto::request::{Request, RequestView};
use crate::dto::to_wire::{spec_into, target_text};
use crate::dto::wire::{wire_view, WireRequest, WireRequestView};
use crate::http::message::{origin_form, RequestParts};
use crate::proxy::service::{DEFAULT_HTTPS_PORT, DEFAULT_HTTP_PORT};
use crate::proxy::utils::{
    extract_host, parse_host_header, spec_extract_host, spec_parse_host_header,
};
use vstd::prelude::*;
use vstd::string::StringExecFns;
use vstd::utf8::encode_utf8;

verus! {

/// The marker as it is put into a query: URL-encoded.
pub const XSS_STRING: &'static str = "vulnerable%27%22%3E%3Cimg%20src%20onerror%3Dalert%28%29%3E";

/// The marker as it is put into a form, and as a page shows it once it has
/// decoded it.
pub const ORIGINAL_XSS_STRING: &'static str = "vulnerable'\"><img src onerror=alert()>";

/// Why the scanner has no result.
#[derive(Clone, Copy, Debug, PartialEq, Eq)]
pub enum ScannerError {
    Unknown,
    /// A request could not be sent, or got no response.
    RequestFailed,
    /// The body of a response could not be read to its end.
    BodyLoadFailed,
}

impl ScannerError {
    /// The error in words.
    pub fn message(&self) -> (r: String)
        ensures
            r@ == match *self {
                ScannerError::Unknown => "unknown scanner error"@,
                ScannerError::RequestFailed => "failed to send request to remote host"@,
                ScannerError::BodyLoadFailed => "failed to download the response body"@,
            },
    {
        match self {
            ScannerError::Unknown => String::from_str("unknown scanner error"),
            ScannerError::RequestFailed => String::from_str("failed to send request to remote host"),
            ScannerError::BodyLoadFailed => String::from_str("failed to download the response body"),
        }
    }
}

/// `needle` stands in `hay` at `at`.
pub open spec fn occurs_at(hay: Seq<u8>, needle: Seq<u8>, at: int) -> bool {
    &&& 0 <= at
    &&& at + needle.len() <= hay.len()
    &&& hay.subrange(at, at + needle.len()) == needle
}

/// `needle` stands somewhere in `hay`.
pub open spec fn occurs_in(hay: Seq<u8>, needle: Seq<u8>) -> bool {
    exists|at: int| occurs_at(hay, needle, at)
}

/// A body shows the marker: in one of its two forms, octet for octet.
pub open spec fn spec_is_reflected(body: Seq<u8>) -> bool {
    occurs_in(body, encode_utf8(XSS_STRING@)) || occurs_in(body, encode_utf8(ORIGINAL_XSS_STRING@))
}

/// Whether `needle` stands in `hay` at `at`.
fn matches_at(hay: &[u8], needle: &[u8], at: usize) -> (r: bool)
    requires
        at + needle@.len() <= hay@.len(),
    ensures
        r == occurs_at(hay@, needle@, at as int),
{
    let n = hay.len();
    let m = needle.len();
    let mut j: usize = 0;
    while j < m
        invariant
            0 <= j <= m,
            m == needle@.len(),
            n == hay@.len(),
            at + m <= n,
            forall|k: int| 0 <= k < j ==> hay@[at + k] == needle@[k],
        decreases m - j,
    {
        if hay[at + j] != needle[j] {
            assert(hay@.subrange(at as int, at + m)[j as int] != needle@[j as int]);
            return false;
        }
        j += 1;
    }
    assert(hay@.subrange(at as int, at + m) =~= needle@);
    true
}

/// Whether `needle` stands somewhere in `hay`.
pub fn contains_bytes(hay: &[u8], needle: &[u8]) -> (r: bool)
    ensures
        r == occurs_in(hay@, needle@),
{
    let n = hay.len();
    let m = needle.len();
    if m > n {
        return false;
    }
    let last = n - m;
    let mut at: usize = 0;
    loop
        invariant
            m <= n,
            n == hay@.len(),
            m == needle@.len(),
            last == n - m,
            0 <= at <= last,
            forall|k: int| 0 <= k < at ==> !occurs_at(hay@, needle@, k),
        decreases last - at,
    {
        if matches_at(hay, needle, at) {
            return true;
        }
        if at == last {
            return false;
        }
        at += 1;
    }
}

/// Whether a body shows the marker.
pub fn is_reflected(body: &[u8]) -> (r: bool)
    ensures
        r == spec_is_reflected(body@),
{
    contains_bytes(body, XSS_STRING.as_bytes()) || contains_bytes(
        body,
        ORIGINAL_XSS_STRING.as_bytes(),
    )
}

/// One thing that the scanner tries: a parameter, of the query or of the
/// form.
pub struct ProbeView {
    pub parameter: Seq<char>,
    pub in_form: bool,
}

/// The request that tries a parameter: the request of the capture with the
/// marker in the place of the first value of the parameter.
pub open spec fn probe_request(req: RequestView, probe: ProbeView) -> RequestView {
    if probe.in_form {
        RequestView {
            body: match req.body {
                BodyView::UrlEncoded(groups) => BodyView::UrlEncoded(
                    groups_with_first(groups, probe.parameter, ORIGINAL_XSS_STRING@),
                ),
                BodyView::Blob(bytes) => BodyView::Blob(bytes),
            },
            ..req
        }
    } else {
        RequestView {
            query_params: match req.query_params {
                Some(groups) => Some(groups_with_first(groups, probe.parameter, XSS_STRING@)),
                None => None,
            },
            ..req
        }
    }
}

/// The parameters of the groups, once for each of their values.
pub open spec fn probes_of(groups: Groups, in_form: bool) -> Seq<ProbeView> {
    Seq::new(
        pairs_of(groups).len(),
        |i: int| ProbeView { parameter: pairs_of(groups)[i].0, in_form },
    )
}

/// What the scanner tries for a request, in order: each parameter of the
/// query, then each parameter of the body where the body is a form; a
/// parameter once for each of its values.
pub open spec fn spec_probes(req: RequestView) -> Seq<ProbeView> {
    (match req.query_params {
        Some(groups) => probes_of(groups, false),
        None => Seq::empty(),
    }) + (match req.body {
        BodyView::UrlEncoded(groups) => probes_of(groups, true),
        BodyView::Blob(_) => Seq::empty(),
    })
}

/// What came of sending a request.
#[derive(Debug)]
pub enum ProbeOutcome {
    /// A response came, and this is its body.
    Body(Vec<u8>),
    /// The request could not be sent, or got no response.
    RequestFailed,
    /// The body of the response could not be read to its end.
    BodyLoadFailed,
}

/// What came of sending a request, as mathematical values.
pub enum OutcomeView {
    Body(Seq<u8>),
    RequestFailed,
    BodyLoadFailed,
}

impl View for ProbeOutcome {
    type V = OutcomeView;

    open spec fn view(&self) -> OutcomeView {
        match self {
            ProbeOutcome::Body(body) => OutcomeView::Body(body@),
            ProbeOutcome::RequestFailed => OutcomeView::RequestFailed,
            ProbeOutcome::BodyLoadFailed => OutcomeView::BodyLoadFailed,
        }
    }
}

/// Where a scan stands: what it tries, how much of it is done, which
/// parameters showed the marker, and whether it has failed.
pub struct ScanView {
    pub request: RequestView,
    pub probes: Seq<ProbeView>,
    pub done: nat,
    pub found: Seq<Seq<char>>,
    pub failed: Option<ScannerError>,
}

/// Where a scan of the request starts.
pub open spec fn scan_start(req: RequestView) -> ScanView {
    ScanView { request: req, probes: spec_probes(req), done: 0, found: Seq::empty(), failed: None }
}

/// Whether the scan has a request to send.
pub open spec fn scan_is_open(scan: ScanView) -> bool {
    scan.failed is None && scan.done < scan.probes.len()
}

/// Where a scan stands after what came of the request that it had to send.
/// A failure ends the scan; a body moves it on, with the parameter among
/// those found where the body shows the marker. A scan that has nothing to
/// send stays as it is.
pub open spec fn scan_after(scan: ScanView, outcome: OutcomeView) -> ScanView {
    if !scan_is_open(scan) {
        scan
    } else {
        match outcome {
            OutcomeView::Body(body) => ScanView {
                done: scan.done + 1,
                found: if spec_is_reflected(body) {
                    scan.found.push(scan.probes[scan.done as int].parameter)
                } else {
                    scan.found
                },
                ..scan
            },
            OutcomeView::RequestFailed => ScanView {
                failed: Some(ScannerError::RequestFailed),
                ..scan
            },
            OutcomeView::BodyLoadFailed => ScanView {
                failed: Some(ScannerError::BodyLoadFailed),
                ..scan
            },
        }
    }
}

/// What the scan has found: nothing yet while it has a request to send,
/// its failure where it failed, else the parameters that showed the marker.
pub open spec fn scan_result(scan: ScanView) -> Option<Result<Seq<Seq<char>>, ScannerError>> {
    match scan.failed {
        Some(error) => Some(Err(error)),
        None => if scan.done < scan.probes.len() {
            None
        } else {
            Some(Ok(scan.found))
        },
    }
}

/// Where a scan stands after the outcomes, one after the other.
pub open spec fn scan_after_all(scan: ScanView, outcomes: Seq<OutcomeView>) -> ScanView
    decreases outcomes.len(),
{
    if outcomes.len() == 0 {
        scan
    } else {
        scan_after(scan_after_all(scan, outcomes.drop_last()), outcomes.last())
    }
}

/// A parameter to try.
#[derive(Debug)]
pub struct Probe {
    pub parameter: String,
    pub in_form: bool,
}

impl View for Probe {
    type V = ProbeView;

    open spec fn view(&self) -> ProbeView {
        ProbeView { parameter: self.parameter@, in_form: self.in_form }
    }
}

/// The views of probes.
pub open spec fn probe_views(probes: Seq<Probe>) -> Seq<ProbeView> {
    Seq::new(probes.len(), |i: int| probes[i]@)
}

/// A scan for reflected cross-site scripting, between two requests.
#[derive(Debug)]
pub struct XssScan {
    request: Request,
    probes: Vec<Probe>,
    done: usize,
    found: Vec<String>,
    failed: Option<ScannerError>,
}

impl View for XssScan {
    type V = ScanView;

    closed spec fn view(&self) -> ScanView {
        ScanView {
            request: self.request@,
            probes: probe_views(self.probes@),
            done: self.done as nat,
            found: texts(self.found@),
            failed: self.failed,
        }
    }
}

/// Adds the parameters of the pairs to the probes.
fn push_probes(
    probes: &mut Vec<Probe>,
    pairs: &Vec<(String, String)>,
    in_form: bool,
    Ghost(groups): Ghost<Groups>,
)
    requires
        pair_texts(pairs@) == pairs_of(groups),
    ensures
        probe_views(final(probes)@) == probe_views(old(probes)@) + probes_of(groups, in_form),
{
    let n = pairs.len();
    let mut i: usize = 0;
    let ghost before = probe_views(probes@);
    assert(probe_views(probes@) =~= before + probes_of(groups, in_form).take(0));
    while i < n
        invariant
            0 <= i <= n,
            n == pairs@.len(),
            pair_texts(pairs@) == pairs_of(groups),
            probe_views(probes@) == before + probes_of(groups, in_form).take(i as int),
        decreases n - i,
    {
        let ghost so_far = probe_views(probes@);
        probes.push(Probe { parameter: pairs[i].0.clone(), in_form });
        proof {
            assert(pair_texts(pairs@)[i as int].0 == pairs@[i as int].0@);
            assert(probe_views(probes@) =~= so_far.push(
                ProbeView { parameter: pairs@[i as int].0@, in_form },
            ));
            assert(probes_of(groups, in_form).take(i + 1) =~= probes_of(groups, in_form).take(
                i as int,
            ).push(probes_of(groups, in_form)[i as int]));
        }
        i += 1;
    }
    assert(probes_of(groups, in_form).take(n as int) =~= probes_of(groups, in_form));
}

/// A request that is ready to be sent again, with the origin that it goes
/// to.
#[derive(Debug)]
pub struct Resend {
    pub parts: RequestParts,
    pub body: Vec<u8>,
    pub host: String,
    pub port: u16,
    pub is_https: bool,
}

/// A request that is ready to be sent again, as mathematical values.
pub struct ResendView {
    pub wire: WireRequestView,
    pub host: Seq<char>,
    pub port: u16,
}

/// What an optional [`Resend`] holds.
pub open spec fn resend_view_of(resend: Option<Resend>) -> Option<ResendView> {
    match resend {
        Some(resend) => Some(
            ResendView {
                wire: wire_view((resend.parts, resend.body, resend.is_https)),
                host: resend.host@,
                port: resend.port,
            },
        ),
        None => None,
    }
}

/// The origin of a request on the wire: the host that its `Host` header or
/// else its URI names, and the port that is named there, or else 443 over
/// TLS and 80 without. `None` where no host is named, or what follows its
/// colon is no port.
pub open spec fn spec_resend_target(wire: WireRequestView) -> Option<ResendView> {
    match spec_extract_host(wire.fields, wire.uri) {
        Some(full_host) => match spec_parse_host_header(
            full_host,
            if wire.is_https {
                DEFAULT_HTTPS_PORT
            } else {
                DEFAULT_HTTP_PORT
            },
        ) {
            Ok((host, port)) => Some(ResendView { wire, host, port }),
            Err(_) => None,
        },
        None => None,
    }
}

/// The scanner.
#[derive(Clone, Copy, Debug)]
pub struct SimpleScanner {}

impl SimpleScanner {
    /// Where a request on the wire goes.
    pub fn resend_target(wire: WireRequest) -> (r: Option<Resend>)
        ensures
            resend_view_of(r) == spec_resend_target(wire_view(wire)),
    {
        let (parts, body, is_https) = wire;
        let full_host = match extract_host(&parts) {
            Some(full_host) => full_host,
            None => {
                return None;
            },
        };
        let fallback = if is_https {
            DEFAULT_HTTPS_PORT
        } else {
            DEFAULT_HTTP_PORT
        };
        match parse_host_header(&full_host, fallback) {
            Ok((host, port)) => Some(Resend { parts, body, host, port, is_https }),
            Err(_) => None,
        }
    }

    /// Makes a kept request ready to be sent again: the message that it is
    /// on the wire, and the origin that the message names. `None` where the
    /// request is no message or names no origin.
    pub fn resend_request(&self, req: Request) -> (r: Option<Resend>)
        requires
            req.wf(),
        ensures
            resend_view_of(r) == match spec_into(
                req@,
                origin_form(target_text(req@.path, req@.query_params)),
            ) {
                Some(wire) => spec_resend_target(wire),
                None => None,
            },
    {
        match req.into() {
            Some(wire) => Self::resend_target(wire),
            None => None,
        }
    }

    /// Starts a scan of a capture for reflected cross-site scripting. The
    /// scan then says which request to send, takes what came of it, and so
    /// on until it has its result.
    pub fn scan_xss(&self, reqresp: Reqresp) -> (r: XssScan)
        requires
            reqresp.req.wf(),
        ensures
            r.wf(),
            r@ == scan_start(reqresp.req@),
    {
        let req = reqresp.req;
        let mut probes: Vec<Probe> = Vec::new();
        assert(probe_views(probes@) =~= Seq::<ProbeView>::empty());
        if let Some(query_params) = req.query_params() {
            let pairs = query_params.to_pairs();
            push_probes(&mut probes, &pairs, false, Ghost(query_params@));
        }
        if let SimpleBody::UrlEncoded(form) = req.body() {
            let pairs = form.to_pairs();
            push_probes(&mut probes, &pairs, true, Ghost(form@));
        }
        let r = XssScan { request: req, probes, done: 0, found: Vec::new(), failed: None };
        assert(r@.found =~= Seq::<Seq<char>>::empty());
        assert(r@.probes =~= spec_probes(req@));
        r
    }
}

impl XssScan {
    /// The request of the scan is well-formed, and no more is done than
    /// there is to do.
    pub closed spec fn wf(&self) -> bool {
        &&& self.request.wf()
        &&& self.done <= self.probes@.len()
    }

    /// The request to send next: the request of the capture with the marker
    /// in the place of the first value of the parameter that is tried.
    /// `None` where the scan has its result.
    pub fn next_request(&self) -> (r: Option<Request>)
        requires
            self.wf(),
        ensures
            r is Some <==> scan_is_open(self@),
            r matches Some(req) ==> req.wf() && req@ == probe_request(
                self@.request,
                self@.probes[self@.done as int],
            ),
    {
        if self.failed.is_some() || self.done >= self.probes.len() {
            return None;
        }
        let probe = &self.probes[self.done];
        let mut req = self.request.clone();
        if probe.in_form {
            req.set_form_param(probe.parameter.as_str(), ORIGINAL_XSS_STRING.to_owned());
        } else {
            req.set_query_param(probe.parameter.as_str(), XSS_STRING.to_owned());
        }
        Some(req)
    }

    /// Takes what came of the request that the scan had to send.
    pub fn record(&mut self, outcome: ProbeOutcome)
        requires
            old(self).wf(),
        ensures
            final(self).wf(),
            final(self)@ == scan_after(old(self)@, outcome@),
    {
        if self.failed.is_some() || self.done >= self.probes.len() {
            return ;
        }
        let ghost before = self@;
        match outcome {
            ProbeOutcome::Body(body) => {
                if is_reflected(body.as_slice()) {
                    self.found.push(self.probes[self.done].parameter.clone());
                    assert(self@.found =~= before.found.push(before.probes[before.done as int].parameter));
                }
                self.done = self.done + 1;
            },
            ProbeOutcome::RequestFailed => {
                self.failed = Some(ScannerError::RequestFailed);
            },
            ProbeOutcome::BodyLoadFailed => {
                self.failed = Some(ScannerError::BodyLoadFailed);
            },
        }
    }

    /// What the scan has found. `None` while it has a request to send.
    pub fn result(&self) -> (r: Option<Result<Vec<String>, ScannerError>>)
        requires
            self.wf(),
        ensures
            match scan_result(self@) {
                None => r is None,
                Some(Err(error)) => r == Some(Err::<Vec<String>, _>(error)),
                Some(Ok(found)) => r matches Some(Ok(names)) && texts(names@)
                    == found,
            },
    {
        match self.failed {
            Some(error) => Some(Err(error)),
            None => {
                if self.done < self.probes.len() {
                    None
                } else {
                    let names = self.found.clone();
                    assert(texts(names@) =~= self@.found) by {
                        assert forall|i: int| 0 <= i < names@.len() implies names@[i]@
                            == self.found@[i]@ by {
                            assert(vstd::pervasive::cloned(self.found@[i], names@[i]));
                        }
                    }
                    Some(Ok(names))
                }
            },
        }
    }
}

/// A request without a query and without a form gives the scanner nothing
/// to try: the scan has its result at once, the empty list, and no request
/// to send.
pub proof fn lemma_nothing_to_scan(req: RequestView)
    requires
        req.query_params is None,
        req.body is Blob,
    ensures
        spec_probes(req) == Seq::<ProbeView>::empty(),
        !scan_is_open(scan_start(req)),
        scan_result(scan_start(req)) == Some(Ok::<_, ScannerError>(Seq::<Seq<char>>::empty())),
{
    assert(spec_probes(req) =~= Seq::<ProbeView>::empty());
}

/// While every request gets a response, the scan moves on by one probe
/// for each, and finds the parameters whose responses show the marker, in
/// the order of the probes.
pub open spec fn found_among(probes: Seq<ProbeView>, bodies: Seq<Seq<u8>>) -> Seq<Seq<char>>
    decreases bodies.len(),
{
    if bodies.len() == 0 || bodies.len() > probes.len() {
        Seq::empty()
    } else if spec_is_reflected(bodies.last()) {
        found_among(probes, bodies.drop_last()).push(probes[bodies.len() - 1].parameter)
    } else {
        found_among(probes, bodies.drop_last())
    }
}

/// The outcomes that are the bodies of responses.
pub open spec fn outcomes_of(bodies: Seq<Seq<u8>>) -> Seq<OutcomeView> {
    Seq::new(bodies.len(), |i: int| OutcomeView::Body(bodies[i]))
}

/// A scan whose requests all get responses tries one probe for each
/// response and finds the parameters whose responses show the marker.
pub proof fn lemma_scan_of_responses(req: RequestView, bodies: Seq<Seq<u8>>)
    requires
        bodies.len() <= spec_probes(req).len(),
    ensures
        scan_after_all(scan_start(req), outcomes_of(bodies)) == (ScanView {
            done: bodies.len(),
            found: found_among(spec_probes(req), bodies),
            ..scan_start(req)
        }),
    decreases bodies.len(),
{
    if bodies.len() > 0 {
        lemma_scan_of_responses(req, bodies.drop_last());
        assert(outcomes_of(bodies).drop_last() =~= outcomes_of(bodies.drop_last()));
        assert(outcomes_of(bodies).last() == OutcomeView::Body(bodies.last()));
    }
}

/// Where the response to one probe shows the marker and the responses to
/// the others do not, nothing but the parameter of that probe is found.
pub proof fn lemma_found_one(probes: Seq<ProbeView>, bodies: Seq<Seq<u8>>, echoed: int)
    requires
        bodies.len() <= probes.len(),
        forall|i: int| 0 <= i < bodies.len() ==> (spec_is_reflected(#[trigger] bodies[i]) <==> i == echoed),
    ensures
        found_among(probes, bodies) == if 0 <= echoed < bodies.len() {
            seq![probes[echoed].parameter]
        } else {
            Seq::<Seq<char>>::empty()
        },
    decreases bodies.len(),
{
    if bodies.len() > 0 {
        let rest = bodies.drop_last();
        assert forall|i: int| 0 <= i < rest.len() implies (spec_is_reflected(#[trigger] rest[i]) <==> i
            == echoed) by {
            assert(rest[i] == bodies[i]);
        }
        lemma_found_one(probes, rest, echoed);
        assert(bodies.last() == bodies[bodies.len() - 1]);
        if echoed == bodies.len() - 1 {
            assert(found_among(probes, bodies) =~= seq![probes[echoed].parameter]);
        }
    }
}

/// A scan in which every probe gets a response, and the response to one
/// probe alone shows the marker, finds the parameter of that probe and
/// no other.
pub proof fn lemma_scan_finds_echo(req: RequestView, bodies: Seq<Seq<u8>>, echoed: int)
    requires
        bodies.len() == spec_probes(req).len(),
        0 <= echoed < bodies.len(),
        forall|i: int| 0 <= i < bodies.len() ==> (spec_is_reflected(#[trigger] bodies[i]) <==> i == echoed),
    ensures
        scan_result(scan_after_all(scan_start(req), outcomes_of(bodies))) == Some(
            Ok::<_, ScannerError>(seq![spec_probes(req)[echoed].parameter]),
        ),
{
    lemma_scan_of_responses(req, bodies);
    lemma_found_one(spec_probes(req), bodies, echoed);
}

} // verus!
