//! One exchange on one connection, step by step: what has happened so far
//! decides what is done next.

use crate::http::message::{RequestParts, UriView};
use crate::proxy::middleware::{METHOD_CONNECT, TUNNEL_ESTABLISHED};
use crate::proxy::service::{plan_direct, plan_tunnelled, Exchange, ExchangeView, ProxyService};
use vstd::prelude::*;

verus! {

/// Where an exchange stands.
#[derive(Clone, Copy, Debug, PartialEq, Eq)]
pub enum Stage {
    /// Nothing has been read yet.
    ReadRequest,
    /// A tunnel was granted; the TLS handshake is under way.
    TlsAccept,
    /// The request went upstream; its response has not come yet.
    Forward,
    /// The response came, and its body is read to its end for the callback.
    MaterializeResponse,
    /// The exchange is over.
    Done,
    /// The exchange broke off.
    Fail,
}

/// What happened.
#[derive(Debug)]
pub enum Event {
    /// A request was read: this is its head; its body was read to its end.
    Request(RequestParts),
    /// The TLS handshake in the tunnel succeeded.
    TlsAccepted,
    /// The TLS handshake in the tunnel failed.
    TlsFailed,
    /// The head of the response came from upstream.
    Response,
    /// The request could not be sent, or got no response.
    UpstreamFailed,
    /// The body of the response was read to its end.
    ResponseBody,
    /// The body of the response broke off.
    ResponseBodyFailed,
}

/// What to do next.
#[derive(Debug)]
pub enum Action {
    /// Answer with this status and no body, and take the connection over as
    /// a tunnel: accept TLS in it.
    Upgrade { status: u16 },
    /// Serve what comes through the tunnel, decrypted, as tunnelled
    /// requests.
    ServeTunnel,
    /// Answer with this status and this body; nothing goes upstream.
    Reject { status: u16, body: String },
    /// Send this request to this origin.
    Send { parts: RequestParts, host: String, port: u16, is_tls: bool },
    /// Read the body of the response to its end.
    ReadResponseBody,
    /// Tell the callback of the exchange, and answer with the response and
    /// the body that was read.
    Dispatch,
    /// Answer with the response as it comes, body and all.
    Answer,
    /// There is nothing to do: the exchange broke off.
    Abort,
}

/// What happened, as mathematical values.
pub enum EventView {
    Request { method: Seq<char>, uri: UriView, fields: Seq<(Seq<char>, Seq<u8>)> },
    TlsAccepted,
    TlsFailed,
    Response,
    UpstreamFailed,
    ResponseBody,
    ResponseBodyFailed,
}

/// What to do next, as mathematical values.
pub enum ActionView {
    Upgrade { status: u16 },
    ServeTunnel,
    Reject { status: u16, body: Seq<char> },
    Send {
        method: Seq<char>,
        uri: UriView,
        fields: Seq<(Seq<char>, Seq<u8>)>,
        host: Seq<char>,
        port: u16,
        is_tls: bool,
    },
    ReadResponseBody,
    Dispatch,
    Answer,
    Abort,
}

impl View for Event {
    type V = EventView;

    open spec fn view(&self) -> EventView {
        match self {
            Event::Request(parts) => EventView::Request {
                method: parts.method@,
                uri: parts.uri@,
                fields: parts.headers@,
            },
            Event::TlsAccepted => EventView::TlsAccepted,
            Event::TlsFailed => EventView::TlsFailed,
            Event::Response => EventView::Response,
            Event::UpstreamFailed => EventView::UpstreamFailed,
            Event::ResponseBody => EventView::ResponseBody,
            Event::ResponseBodyFailed => EventView::ResponseBodyFailed,
        }
    }
}

impl View for Action {
    type V = ActionView;

    open spec fn view(&self) -> ActionView {
        match self {
            Action::Upgrade { status } => ActionView::Upgrade { status: *status },
            Action::ServeTunnel => ActionView::ServeTunnel,
            Action::Reject { status, body } => ActionView::Reject { status: *status, body: body@ },
            Action::Send { parts, host, port, is_tls } => ActionView::Send {
                method: parts.method@,
                uri: parts.uri@,
                fields: parts.headers@,
                host: host@,
                port: *port,
                is_tls: *is_tls,
            },
            Action::ReadResponseBody => ActionView::ReadResponseBody,
            Action::Dispatch => ActionView::Dispatch,
            Action::Answer => ActionView::Answer,
            Action::Abort => ActionView::Abort,
        }
    }
}

/// What is done with a request that was read. A request in the clear that
/// asks for a tunnel gets one; any other goes where the service sends it.
pub open spec fn step_request(
    is_tls: bool,
    method: Seq<char>,
    uri: UriView,
    fields: Seq<(Seq<char>, Seq<u8>)>,
) -> (Stage, ActionView) {
    if !is_tls && method == METHOD_CONNECT@ {
        (Stage::TlsAccept, ActionView::Upgrade { status: TUNNEL_ESTABLISHED })
    } else {
        let plan = if is_tls {
            plan_tunnelled(method, uri, fields)
        } else {
            plan_direct(method, uri, fields)
        };
        match plan {
            ExchangeView::Reject { status, body } => (
                Stage::Done,
                ActionView::Reject { status, body },
            ),
            ExchangeView::Forward { method, uri, fields, host, port, is_tls } => (
                Stage::Forward,
                ActionView::Send { method, uri, fields, host, port, is_tls },
            ),
            ExchangeView::Unroutable => (Stage::Fail, ActionView::Abort),
        }
    }
}

/// The step of an exchange: where it stands after what happened, and what
/// is done next. What cannot happen where the exchange stands breaks it
/// off, and so does every failure.
pub open spec fn spec_step(is_tls: bool, observes: bool, stage: Stage, event: EventView) -> (
    Stage,
    ActionView,
) {
    match (stage, event) {
        (Stage::ReadRequest, EventView::Request { method, uri, fields }) => step_request(
            is_tls,
            method,
            uri,
            fields,
        ),
        (Stage::TlsAccept, EventView::TlsAccepted) => (Stage::Done, ActionView::ServeTunnel),
        (Stage::Forward, EventView::Response) => if observes {
            (Stage::MaterializeResponse, ActionView::ReadResponseBody)
        } else {
            (Stage::Done, ActionView::Answer)
        },
        (Stage::MaterializeResponse, EventView::ResponseBody) => (
            Stage::Done,
            ActionView::Dispatch,
        ),
        _ => (Stage::Fail, ActionView::Abort),
    }
}

/// The actions of an exchange that starts at `stage`, for the events one
/// after the other.
pub open spec fn actions_of(
    is_tls: bool,
    observes: bool,
    stage: Stage,
    events: Seq<EventView>,
) -> Seq<ActionView>
    decreases events.len(),
{
    if events.len() == 0 {
        Seq::empty()
    } else {
        let (next, action) = spec_step(is_tls, observes, stage, events[0]);
        seq![action] + actions_of(is_tls, observes, next, events.drop_first())
    }
}

impl<C> ProxyService<C> {
    /// Takes what happened and says what is done next.
    pub fn step(&self, stage: Stage, event: Event) -> (r: (Stage, Action))
        ensures
            (r.0, r.1@) == spec_step(self.is_tls, self.callback is Some, stage, event@),
    {
        match (stage, event) {
            (Stage::ReadRequest, Event::Request(parts)) => {
                if !self.is_tls && parts.method.clone() == METHOD_CONNECT.to_owned() {
                    return (Stage::TlsAccept, Action::Upgrade { status: TUNNEL_ESTABLISHED });
                }
                match self.plan(parts) {
                    Exchange::Reject { status, body } => (
                        Stage::Done,
                        Action::Reject { status, body },
                    ),
                    Exchange::Forward { parts, host, port, is_tls } => (
                        Stage::Forward,
                        Action::Send { parts, host, port, is_tls },
                    ),
                    Exchange::Unroutable => (Stage::Fail, Action::Abort),
                }
            },
            (Stage::TlsAccept, Event::TlsAccepted) => (Stage::Done, Action::ServeTunnel),
            (Stage::Forward, Event::Response) => {
                if self.observes() {
                    (Stage::MaterializeResponse, Action::ReadResponseBody)
                } else {
                    (Stage::Done, Action::Answer)
                }
            },
            (Stage::MaterializeResponse, Event::ResponseBody) => (Stage::Done, Action::Dispatch),
            _ => (Stage::Fail, Action::Abort),
        }
    }
}

/// Every exchange has as many actions as events.
pub proof fn lemma_actions_len(is_tls: bool, observes: bool, stage: Stage, events: Seq<EventView>)
    ensures
        actions_of(is_tls, observes, stage, events).len() == events.len(),
    decreases events.len(),
{
    if events.len() > 0 {
        let (next, _) = spec_step(is_tls, observes, stage, events[0]);
        lemma_actions_len(is_tls, observes, next, events.drop_first());
    }
}

/// An exchange that is over or broke off does nothing more.
pub proof fn lemma_over_is_over(
    is_tls: bool,
    observes: bool,
    stage: Stage,
    events: Seq<EventView>,
    k: int,
)
    requires
        stage == Stage::Done || stage == Stage::Fail,
        0 <= k < events.len(),
    ensures
        actions_of(is_tls, observes, stage, events)[k] == ActionView::Abort,
    decreases events.len(),
{
    lemma_actions_len(is_tls, observes, Stage::Fail, events.drop_first());
    if k > 0 {
        lemma_over_is_over(is_tls, observes, Stage::Fail, events.drop_first(), k - 1);
    }
}

/// The callback is told of an exchange at most once, and only of one that
/// has its response: whatever happens, in whatever order, the callback is
/// told by the third action and by no other, and then a request was read,
/// its response came, and the body of the response was read to its end.
pub proof fn lemma_dispatch_once(is_tls: bool, observes: bool, events: Seq<EventView>, k: int)
    requires
        0 <= k < events.len(),
        actions_of(is_tls, observes, Stage::ReadRequest, events)[k] == ActionView::Dispatch,
    ensures
        observes,
        k == 2,
        events[0] is Request,
        events[1] == EventView::Response,
        events[2] == EventView::ResponseBody,
{
    let first = spec_step(is_tls, observes, Stage::ReadRequest, events[0]);
    let rest = events.drop_first();
    lemma_actions_len(is_tls, observes, first.0, rest);
    if k == 0 {
        assert(first.1 != ActionView::Dispatch);
    } else {
        assert(actions_of(is_tls, observes, first.0, rest)[k - 1] == ActionView::Dispatch);
        if first.0 == Stage::Done || first.0 == Stage::Fail {
            lemma_over_is_over(is_tls, observes, first.0, rest, k - 1);
        } else {
            let second = spec_step(is_tls, observes, first.0, rest[0]);
            let tail = rest.drop_first();
            lemma_actions_len(is_tls, observes, second.0, tail);
            assert(rest[0] == events[1]);
            if k == 1 {
                assert(second.1 != ActionView::Dispatch);
            } else {
                assert(actions_of(is_tls, observes, second.0, tail)[k - 2] == ActionView::Dispatch);
                if second.0 == Stage::Done || second.0 == Stage::Fail {
                    lemma_over_is_over(is_tls, observes, second.0, tail, k - 2);
                } else {
                    let third = spec_step(is_tls, observes, second.0, tail[0]);
                    let end = tail.drop_first();
                    lemma_actions_len(is_tls, observes, third.0, end);
                    assert(tail[0] == events[2]);
                    assert(third.0 == Stage::Done || third.0 == Stage::Fail);
                    if k > 2 {
                        lemma_over_is_over(is_tls, observes, third.0, end, k - 3);
                    }
                }
            }
        }
    }
}

} // verus!
