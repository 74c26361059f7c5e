//! The configuration of the proxy: five values, by name.

use crate::proxy::utils::{parse_port, spec_parse_port};
use crate::text::text_of;
use vstd::prelude::*;
use vstd::string::StringExecFns;

verus! {

/// The name of the address that the proxy listens on.
pub const PROXY_HOST: &'static str = "RUSTY_PROXY_HOST";

/// The name of the port that the proxy listens on.
pub const PROXY_PORT: &'static str = "RUSTY_PROXY_PORT";

/// The name of the path of the certificates that the proxy shows.
pub const SSL_CERTIFICATE: &'static str = "RUSTY_PROXY_SSL_CERTIFICATE";

/// The name of the path of the private key of the proxy.
pub const SSL_PRIVATE_KEY: &'static str = "RUSTY_PROXY_SSL_PRIVATE_KEY";

/// The name of the address of the store of captures.
pub const MONGO_DB_CONNECTION_URL: &'static str = "MONGO_DB_CONNECTION_URL";

/// What the port is to be.
pub const PORT_TYPE: &'static str = "u16";

/// The configuration.
#[derive(Debug)]
pub struct Config {
    proxy_host: String,
    proxy_port: u16,
    ssl_certificate: String,
    ssl_key: String,
    mongodb_uri: String,
}

/// What a [`Config`] holds, as mathematical values.
pub struct ConfigView {
    pub proxy_host: Seq<char>,
    pub proxy_port: u16,
    pub ssl_certificate: Seq<char>,
    pub ssl_key: Seq<char>,
    pub mongodb_uri: Seq<char>,
}

impl View for Config {
    type V = ConfigView;

    closed spec fn view(&self) -> ConfigView {
        ConfigView {
            proxy_host: self.proxy_host@,
            proxy_port: self.proxy_port,
            ssl_certificate: self.ssl_certificate@,
            ssl_key: self.ssl_key@,
            mongodb_uri: self.mongodb_uri@,
        }
    }
}

/// Why there is no configuration.
#[derive(Debug, PartialEq, Eq)]
pub enum ConfigParsingError {
    /// A value is not of the type that it is to be of.
    InvalidParameterType { param_name: String, expected: String },
    /// A value is not there.
    MissingParameter(String),
}

/// Why there is no configuration, as mathematical values.
pub enum ConfigErrorView {
    InvalidParameterType { param_name: Seq<char>, expected: Seq<char> },
    MissingParameter(Seq<char>),
}

impl View for ConfigParsingError {
    type V = ConfigErrorView;

    open spec fn view(&self) -> ConfigErrorView {
        match self {
            ConfigParsingError::InvalidParameterType {
                param_name,
                expected,
            } => ConfigErrorView::InvalidParameterType {
                param_name: param_name@,
                expected: expected@,
            },
            ConfigParsingError::MissingParameter(name) => ConfigErrorView::MissingParameter(name@),
        }
    }
}

/// The text as `std` shows it for debugging: between quotes, with what
/// needs it escaped.
pub uninterp spec fn debug_text(text: Seq<char>) -> Seq<char>;

/// `format!` with `{:?}` on a string.
#[verifier::external_body]
fn debug_string(text: &str) -> (r: String)
    ensures
        r@ == debug_text(text@),
{
    format!("{:?}", text)
}

impl ConfigParsingError {
    /// The error in words.
    pub fn message(&self) -> (r: String)
        ensures
            r@ == match self@ {
                ConfigErrorView::InvalidParameterType {
                    param_name,
                    expected,
                } => "invalid type of parameter "@ + debug_text(param_name) + ", expected "@
                    + debug_text(expected),
                ConfigErrorView::MissingParameter(name) => "missing parameter "@ + debug_text(name),
            },
    {
        match self {
            ConfigParsingError::InvalidParameterType { param_name, expected } => {
                let mut text = String::from_str("invalid type of parameter ");
                text.append(debug_string(param_name.as_str()).as_str());
                text.append(", expected ");
                text.append(debug_string(expected.as_str()).as_str());
                text
            },
            ConfigParsingError::MissingParameter(name) => {
                let mut text = String::from_str("missing parameter ");
                text.append(debug_string(name.as_str()).as_str());
                text
            },
        }
    }
}

/// The configuration that the five values make. The first that is missing,
/// in the order in which they are listed, is the one that is told; a port
/// that is no port is told once nothing is missing.
pub open spec fn spec_from_values(
    proxy_host: Option<Seq<char>>,
    proxy_port: Option<Seq<char>>,
    ssl_certificate: Option<Seq<char>>,
    ssl_key: Option<Seq<char>>,
    mongodb_uri: Option<Seq<char>>,
) -> Result<ConfigView, ConfigErrorView> {
    match (proxy_host, proxy_port, ssl_certificate, ssl_key, mongodb_uri) {
        (None, _, _, _, _) => Err(ConfigErrorView::MissingParameter(PROXY_HOST@)),
        (_, None, _, _, _) => Err(ConfigErrorView::MissingParameter(PROXY_PORT@)),
        (_, _, None, _, _) => Err(ConfigErrorView::MissingParameter(SSL_CERTIFICATE@)),
        (_, _, _, None, _) => Err(ConfigErrorView::MissingParameter(SSL_PRIVATE_KEY@)),
        (_, _, _, _, None) => Err(ConfigErrorView::MissingParameter(MONGO_DB_CONNECTION_URL@)),
        (Some(host), Some(port), Some(certificate), Some(key), Some(uri)) => match spec_parse_port(
            port,
        ) {
            Some(port) => Ok(
                ConfigView {
                    proxy_host: host,
                    proxy_port: port,
                    ssl_certificate: certificate,
                    ssl_key: key,
                    mongodb_uri: uri,
                },
            ),
            None => Err(
                ConfigErrorView::InvalidParameterType {
                    param_name: PROXY_PORT@,
                    expected: PORT_TYPE@,
                },
            ),
        },
    }
}

/// What a configuration or its failure holds, as mathematical values.
pub open spec fn config_result_view(r: Result<Config, ConfigParsingError>) -> Result<
    ConfigView,
    ConfigErrorView,
> {
    match r {
        Ok(config) => Ok(config@),
        Err(error) => Err(error@),
    }
}

impl Config {
    /// The address that the proxy listens on.
    pub fn proxy_host(&self) -> (r: &String)
        ensures
            r@ == self@.proxy_host,
    {
        &self.proxy_host
    }

    /// The port that the proxy listens on.
    pub fn proxy_port(&self) -> (r: u16)
        ensures
            r == self@.proxy_port,
    {
        self.proxy_port
    }

    /// The path of the certificates that the proxy shows.
    pub fn ssl_certificate(&self) -> (r: &String)
        ensures
            r@ == self@.ssl_certificate,
    {
        &self.ssl_certificate
    }

    /// The path of the private key of the proxy.
    pub fn ssl_key(&self) -> (r: &String)
        ensures
            r@ == self@.ssl_key,
    {
        &self.ssl_key
    }

    /// The address of the store of captures.
    pub fn mongodb_uri(&self) -> (r: &String)
        ensures
            r@ == self@.mongodb_uri,
    {
        &self.mongodb_uri
    }

    /// The configuration that the five values make: each is what was
    /// found under its name, or `None` where nothing was found.
    pub fn from_values(
        proxy_host: Option<String>,
        proxy_port: Option<String>,
        ssl_certificate: Option<String>,
        ssl_key: Option<String>,
        mongodb_uri: Option<String>,
    ) -> (r: Result<Config, ConfigParsingError>)
        ensures
            config_result_view(r) == spec_from_values(
                text_of(proxy_host),
                text_of(proxy_port),
                text_of(ssl_certificate),
                text_of(ssl_key),
                text_of(mongodb_uri),
            ),
    {
        let proxy_host = match proxy_host {
            Some(value) => value,
            None => {
                return Err(ConfigParsingError::MissingParameter(String::from_str(PROXY_HOST)));
            },
        };
        let port_text = match proxy_port {
            Some(value) => value,
            None => {
                return Err(ConfigParsingError::MissingParameter(String::from_str(PROXY_PORT)));
            },
        };
        let ssl_certificate = match ssl_certificate {
            Some(value) => value,
            None => {
                return Err(ConfigParsingError::MissingParameter(String::from_str(SSL_CERTIFICATE)));
            },
        };
        let ssl_key = match ssl_key {
            Some(value) => value,
            None => {
                return Err(ConfigParsingError::MissingParameter(String::from_str(SSL_PRIVATE_KEY)));
            },
        };
        let mongodb_uri = match mongodb_uri {
            Some(value) => value,
            None => {
                return Err(
                    ConfigParsingError::MissingParameter(String::from_str(MONGO_DB_CONNECTION_URL)),
                );
            },
        };
        let proxy_port = match parse_port(port_text.as_str()) {
            Some(port) => port,
            None => {
                return Err(
                    ConfigParsingError::InvalidParameterType {
                        param_name: String::from_str(PROXY_PORT),
                        expected: String::from_str(PORT_TYPE),
                    },
                );
            },
        };
        Ok(Config { proxy_host, proxy_port, ssl_certificate, ssl_key, mongodb_uri })
    }
}

} // verus!
