//! The step before the service: a request that asks for a tunnel gets one.

use vstd::prelude::*;

verus! {

/// The method that asks for a tunnel.
pub const METHOD_CONNECT: &'static str = "CONNECT";

/// Where a request goes.
#[derive(Clone, Copy, Debug, PartialEq, Eq)]
pub enum Route {
    /// It asks for a tunnel: it is answered with 200 and no body, and what
    /// comes through the tunnel is decrypted and goes to the service for
    /// tunnelled requests.
    Tunnel,
    /// It goes to the service for requests in the clear.
    Inner,
}

/// The status of the answer to a request that asks for a tunnel.
pub const TUNNEL_ESTABLISHED: u16 = 200;

impl Route {
    /// The status of the answer that is given at once, without a body:
    /// 200 for a request that gets a tunnel. A request that goes to the
    /// service is answered by the service.
    pub fn answer_status(&self) -> (r: Option<u16>)
        ensures
            r == match *self {
                Route::Tunnel => Some(TUNNEL_ESTABLISHED),
                Route::Inner => None,
            },
    {
        match self {
            Route::Tunnel => Some(TUNNEL_ESTABLISHED),
            Route::Inner => None,
        }
    }
}

/// Two services, one for the requests that come in the clear and one for
/// those that come through a tunnel, with what it takes to decrypt a
/// tunnel.
#[derive(Clone, Debug)]
pub struct TlsUpgrader<S, T> {
    pub inner_tls: S,
    pub inner: S,
    pub tls_config: T,
}

impl<S, T> TlsUpgrader<S, T> {
    /// An upgrader over the two services.
    pub fn new(inner: S, inner_tls: S, tls_config: T) -> (r: Self)
        ensures
            r.inner == inner,
            r.inner_tls == inner_tls,
            r.tls_config == tls_config,
    {
        TlsUpgrader { inner, inner_tls, tls_config }
    }

    /// Where a request of the given method goes: into a tunnel exactly
    /// when the method is `CONNECT`.
    pub fn route(&self, method: &str) -> (r: Route)
        ensures
            r == if method@ == METHOD_CONNECT@ {
                Route::Tunnel
            } else {
                Route::Inner
            },
    {
        if method.to_owned() == METHOD_CONNECT.to_owned() {
            Route::Tunnel
        } else {
            Route::Inner
        }
    }
}

} // verus!
