//! What the proxy does with a request once it has read it.

use crate::http::message::{has_name, without_name, RequestParts, UriView, HEADER_PROXY_CONNECTION};
use crate::proxy::utils::{
    clean_request, extract_host, origin_form_of, parse_host_header, spec_extract_host,
    spec_parse_host_header, validate_request,
};
use vstd::prelude::*;

verus! {

/// The status of the answer to a request that is not one for a proxy.
pub const BAD_REQUEST: u16 = 400;

/// The port of an origin that is reached without TLS, where the request
/// names none.
pub const DEFAULT_HTTP_PORT: u16 = 80;

/// The port of an origin that is reached over TLS, where the request names
/// none.
pub const DEFAULT_HTTPS_PORT: u16 = 443;

/// The service that handles the requests of one connection: those that
/// came in the clear, or those that came through a tunnel and were
/// decrypted. The callback, where there is one, is told of every exchange.
#[derive(Clone, Debug)]
pub struct ProxyService<C> {
    pub is_tls: bool,
    pub callback: Option<C>,
}

/// What to do with a request.
#[derive(Debug)]
pub enum Exchange {
    /// Answer it with this status and this body; nothing goes upstream.
    Reject { status: u16, body: String },
    /// Send this request to this origin.
    Forward { parts: RequestParts, host: String, port: u16, is_tls: bool },
    /// The request names no origin that can be reached: there is nothing to
    /// send and nothing to answer.
    Unroutable,
}

/// What to do with a request, as mathematical values.
pub enum ExchangeView {
    Reject { status: u16, body: Seq<char> },
    Forward {
        method: Seq<char>,
        uri: UriView,
        fields: Seq<(Seq<char>, Seq<u8>)>,
        host: Seq<char>,
        port: u16,
        is_tls: bool,
    },
    Unroutable,
}

impl View for Exchange {
    type V = ExchangeView;

    open spec fn view(&self) -> ExchangeView {
        match self {
            Exchange::Reject { status, body } => ExchangeView::Reject {
                status: *status,
                body: body@,
            },
            Exchange::Forward { parts, host, port, is_tls } => ExchangeView::Forward {
                method: parts.method@,
                uri: parts.uri@,
                fields: parts.headers@,
                host: host@,
                port: *port,
                is_tls: *is_tls,
            },
            Exchange::Unroutable => ExchangeView::Unroutable,
        }
    }
}

/// What to do with a request that came through a tunnel: it goes, as it
/// is, to the origin that its `Host` header or else its URI names, on the
/// port that is named there or else on 443.
pub open spec fn plan_tunnelled(
    method: Seq<char>,
    uri: UriView,
    fields: Seq<(Seq<char>, Seq<u8>)>,
) -> ExchangeView {
    match spec_extract_host(fields, uri) {
        Some(full_host) => match spec_parse_host_header(full_host, DEFAULT_HTTPS_PORT) {
            Ok((host, port)) => ExchangeView::Forward {
                method,
                uri,
                fields,
                host,
                port,
                is_tls: true,
            },
            Err(_) => ExchangeView::Unroutable,
        },
        None => ExchangeView::Unroutable,
    }
}

/// What to do with a request that came in the clear: where it is no
/// request for a proxy, it is answered with 400 and the reason; else it
/// goes, cleaned, to the host of its URI, on the port of its URI or else on
/// 80.
pub open spec fn plan_direct(
    method: Seq<char>,
    uri: UriView,
    fields: Seq<(Seq<char>, Seq<u8>)>,
) -> ExchangeView {
    if !has_name(fields, HEADER_PROXY_CONNECTION@) {
        ExchangeView::Reject { status: BAD_REQUEST, body: "proxy-connection header is absent"@ }
    } else {
        match uri.host {
            None => ExchangeView::Reject { status: BAD_REQUEST, body: "request uri is relative"@ },
            Some(host) => ExchangeView::Forward {
                method,
                uri: origin_form_of(uri),
                fields: without_name(fields, HEADER_PROXY_CONNECTION@),
                host,
                port: match uri.port {
                    Some(port) => port,
                    None => DEFAULT_HTTP_PORT,
                },
                is_tls: false,
            },
        }
    }
}

impl<C> ProxyService<C> {
    /// Decides what to do with a request.
    pub fn plan(&self, parts: RequestParts) -> (r: Exchange)
        ensures
            r@ == if self.is_tls {
                plan_tunnelled(parts.method@, parts.uri@, parts.headers@)
            } else {
                plan_direct(parts.method@, parts.uri@, parts.headers@)
            },
    {
        if self.is_tls {
            let full_host = match extract_host(&parts) {
                Some(full_host) => full_host,
                None => {
                    return Exchange::Unroutable;
                },
            };
            match parse_host_header(&full_host, DEFAULT_HTTPS_PORT) {
                Ok((host, port)) => Exchange::Forward { parts, host, port, is_tls: true },
                Err(_) => Exchange::Unroutable,
            }
        } else {
            if let Err(cause) = validate_request(&parts) {
                return Exchange::Reject { status: BAD_REQUEST, body: cause.message() };
            }
            let host = match &parts.uri.host {
                Some(host) => host.clone(),
                None => {
                    return Exchange::Unroutable;
                },
            };
            let port = match parts.uri.port {
                Some(port) => port,
                None => DEFAULT_HTTP_PORT,
            };
            let parts = clean_request(parts);
            Exchange::Forward { parts, host, port, is_tls: false }
        }
    }

    /// Whether the body of the response is read to its end before the
    /// response goes back: only where there is a callback to tell of it.
    pub fn observes(&self) -> (r: bool)
        ensures
            r == self.callback is Some,
    {
        self.callback.is_some()
    }
}

} // verus!
