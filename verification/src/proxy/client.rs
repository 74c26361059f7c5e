//! The client that talks to the origin.

use vstd::prelude::*;

verus! {

/// The upstream client.
#[derive(Clone, Copy, Debug)]
pub struct Client {}

/// How one request reaches its origin: one connection, one exchange in
/// HTTP/1.1, the names of the headers written as they came and in title
/// case.
#[derive(Debug)]
pub struct Connection {
    pub host: String,
    pub port: u16,
    /// The name that the certificate of the origin has to be for, where the
    /// connection is to be encrypted.
    pub server_name: Option<String>,
    pub preserve_header_case: bool,
    pub title_case_headers: bool,
}

impl Client {
    /// How a request reaches the origin at `host` and `port`: over TLS
    /// exactly when `is_https`, and then the certificate has to be for
    /// `host`.
    pub fn connection(host: String, port: u16, is_https: bool) -> (r: Connection)
        ensures
            r.host@ == host@,
            r.port == port,
            r.server_name is Some <==> is_https,
            r.server_name matches Some(name) ==> name@ == host@,
            r.preserve_header_case,
            r.title_case_headers,
    {
        let server_name = if is_https {
            Some(host.clone())
        } else {
            None
        };
        Connection { host, port, server_name, preserve_header_case: true, title_case_headers: true }
    }
}

} // verus!
