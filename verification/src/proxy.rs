//! The proxy: how it is put together and what it decides for each request.

pub mod client;
pub mod connection;
pub mod middleware;
pub mod service;
pub mod utils;

use crate::text::text_of;
use vstd::prelude::*;
use vstd::string::StringExecFns;

verus! {

/// An IP address.
#[derive(Clone, Copy, Debug, PartialEq, Eq)]
pub enum IpAddress {
    V4([u8; 4]),
    V6([u16; 8]),
}

/// An IP address and a port.
#[derive(Clone, Copy, Debug, PartialEq, Eq)]
pub struct SocketAddress {
    pub ip: IpAddress,
    pub port: u16,
}

/// Why no proxy could be made.
#[derive(Clone, Copy, Debug, PartialEq, Eq)]
pub enum BuildError {
    NoHost,
    InvalidHost,
    NoPort,
    NoSSL,
}

impl BuildError {
    /// The error in words.
    pub fn message(&self) -> (r: String)
        ensures
            r@ == match *self {
                BuildError::NoHost => "host is not specified"@,
                BuildError::InvalidHost => "given host is not a valid ip"@,
                BuildError::NoPort => "connection port is not specified"@,
                BuildError::NoSSL => "not given ssl certificates"@,
            },
    {
        match self {
            BuildError::NoHost => String::from_str("host is not specified"),
            BuildError::InvalidHost => String::from_str("given host is not a valid ip"),
            BuildError::NoPort => String::from_str("connection port is not specified"),
            BuildError::NoSSL => String::from_str("not given ssl certificates"),
        }
    }
}

/// A proxy that is ready to serve: where it listens, the certificates and
/// the key that it shows, and the callback that it tells of every exchange.
#[derive(Debug)]
pub struct Proxy<C> {
    addr: SocketAddress,
    cert: String,
    key: String,
    callback: Option<C>,
}

/// What a [`Proxy`] holds, as mathematical values.
pub struct ProxyView<C> {
    pub addr: SocketAddress,
    pub cert: Seq<char>,
    pub key: Seq<char>,
    pub callback: Option<C>,
}

impl<C> View for Proxy<C> {
    type V = ProxyView<C>;

    closed spec fn view(&self) -> ProxyView<C> {
        ProxyView { addr: self.addr, cert: self.cert@, key: self.key@, callback: self.callback }
    }
}

impl<C> Proxy<C> {
    /// A builder that knows nothing yet.
    pub fn builder() -> (r: ProxyBuilder<C>)
        ensures
            r@ == empty_builder::<C>(),
    {
        ProxyBuilder::new()
    }

    /// The parts of the proxy: where it listens, the path of its
    /// certificates, the path of its key, and its callback.
    pub fn into_parts(self) -> (r: (SocketAddress, String, String, Option<C>))
        ensures
            self@ == (ProxyView { addr: r.0, cert: r.1@, key: r.2@, callback: r.3 }),
    {
        (self.addr, self.cert, self.key, self.callback)
    }
}

/// What a proxy is made from, as far as it is known.
#[derive(Debug)]
pub struct ProxyBuilder<C> {
    host: Option<String>,
    port: Option<u16>,
    addr: Option<SocketAddress>,
    cert_filepath: Option<String>,
    key_filepath: Option<String>,
    callback: Option<C>,
}

/// What a [`ProxyBuilder`] holds, as mathematical values.
pub struct BuilderView<C> {
    pub host: Option<Seq<char>>,
    pub port: Option<u16>,
    pub addr: Option<SocketAddress>,
    pub cert_filepath: Option<Seq<char>>,
    pub key_filepath: Option<Seq<char>>,
    pub callback: Option<C>,
}

/// The builder that knows nothing.
pub open spec fn empty_builder<C>() -> BuilderView<C> {
    BuilderView {
        host: None,
        port: None,
        addr: None,
        cert_filepath: None,
        key_filepath: None,
        callback: None,
    }
}

/// Where the proxy is to listen: at the address that was given as a
/// whole, else at the host and the port that were given, the host as the IP
/// address that it spells.
pub open spec fn spec_listen_addr<C>(builder: BuilderView<C>, host_ip: Option<IpAddress>) -> Result<
    SocketAddress,
    BuildError,
> {
    match builder.addr {
        Some(addr) => Ok(addr),
        None => match (builder.host, builder.port, host_ip) {
            (None, _, _) => Err(BuildError::NoHost),
            (_, None, _) => Err(BuildError::NoPort),
            (_, _, None) => Err(BuildError::InvalidHost),
            (Some(_), Some(port), Some(ip)) => Ok(SocketAddress { ip, port }),
        },
    }
}

/// The proxy that the builder makes, or why it makes none: the address is
/// settled first, then the certificates and the key.
pub open spec fn spec_build<C>(builder: BuilderView<C>, host_ip: Option<IpAddress>) -> Result<
    ProxyView<C>,
    BuildError,
> {
    match spec_listen_addr(builder, host_ip) {
        Err(error) => Err(error),
        Ok(addr) => match (builder.cert_filepath, builder.key_filepath) {
            (Some(cert), Some(key)) => Ok(
                ProxyView { addr, cert, key, callback: builder.callback },
            ),
            _ => Err(BuildError::NoSSL),
        },
    }
}

/// What a proxy or the failure to make one holds, as mathematical values.
pub open spec fn build_result_view<C>(r: Result<Proxy<C>, BuildError>) -> Result<
    ProxyView<C>,
    BuildError,
> {
    match r {
        Ok(proxy) => Ok(proxy@),
        Err(error) => Err(error),
    }
}

impl<C> View for ProxyBuilder<C> {
    type V = BuilderView<C>;

    closed spec fn view(&self) -> BuilderView<C> {
        BuilderView {
            host: text_of(self.host),
            port: self.port,
            addr: self.addr,
            cert_filepath: text_of(self.cert_filepath),
            key_filepath: text_of(self.key_filepath),
            callback: self.callback,
        }
    }
}

impl<C> ProxyBuilder<C> {
    /// A builder that knows nothing yet.
    pub fn new() -> (r: ProxyBuilder<C>)
        ensures
            r@ == empty_builder::<C>(),
    {
        ProxyBuilder {
            host: None,
            port: None,
            addr: None,
            cert_filepath: None,
            key_filepath: None,
            callback: None,
        }
    }

    /// The host to listen on, as text.
    pub fn with_host(self, host: String) -> (r: ProxyBuilder<C>)
        ensures
            r@ == (BuilderView { host: Some(host@), ..self@ }),
    {
        let mut builder = self;
        builder.host = Some(host);
        builder
    }

    /// The port to listen on.
    pub fn with_port(self, port: u16) -> (r: ProxyBuilder<C>)
        ensures
            r@ == (BuilderView { port: Some(port), ..self@ }),
    {
        let mut builder = self;
        builder.port = Some(port);
        builder
    }

    /// The address to listen on, as a whole: it goes before host and port.
    pub fn with_addr(self, addr: SocketAddress) -> (r: ProxyBuilder<C>)
        ensures
            r@ == (BuilderView { addr: Some(addr), ..self@ }),
    {
        let mut builder = self;
        builder.addr = Some(addr);
        builder
    }

    /// The paths of the certificates and of the private key.
    pub fn with_tls(self, cert_path: String, key_path: String) -> (r: ProxyBuilder<C>)
        ensures
            r@ == (BuilderView {
                cert_filepath: Some(cert_path@),
                key_filepath: Some(key_path@),
                ..self@
            }),
    {
        let mut builder = self;
        builder.cert_filepath = Some(cert_path);
        builder.key_filepath = Some(key_path);
        builder
    }

    /// The callback to tell of every exchange.
    pub fn with_callback(self, callback: C) -> (r: ProxyBuilder<C>)
        ensures
            r@ == (BuilderView { callback: Some(callback), ..self@ }),
    {
        let mut builder = self;
        builder.callback = Some(callback);
        builder
    }

    /// The host that was given, for the caller to read as an IP address.
    pub fn host(&self) -> (r: &Option<String>)
        ensures
            text_of(*r) == self@.host,
    {
        &self.host
    }

    /// Makes the proxy. `host_ip` is the IP address that the host spells,
    /// or `None` where it spells none or no host was given.
    pub fn build(self, host_ip: Option<IpAddress>) -> (r: Result<Proxy<C>, BuildError>)
        ensures
            build_result_view(r) == spec_build(self@, host_ip),
    {
        let addr = match self.addr {
            Some(addr) => addr,
            None => {
                if self.host.is_none() {
                    return Err(BuildError::NoHost);
                }
                let port = match self.port {
                    Some(port) => port,
                    None => {
                        return Err(BuildError::NoPort);
                    },
                };
                match host_ip {
                    Some(ip) => SocketAddress { ip, port },
                    None => {
                        return Err(BuildError::InvalidHost);
                    },
                }
            },
        };
        match (self.cert_filepath, self.key_filepath) {
            (Some(cert), Some(key)) => Ok(Proxy { addr, cert, key, callback: self.callback }),
            _ => Err(BuildError::NoSSL),
        }
    }
}

} // verus!
