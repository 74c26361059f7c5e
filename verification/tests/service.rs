use rusty_proxy::api::lookup_status;
use rusty_proxy::config::{Config, ConfigParsingError};
use rusty_proxy::dto::request::Request;
use rusty_proxy::http::message::{Headers, RequestParts};
use rusty_proxy::http::parser::primitives::parse_header;
use rusty_proxy::http::parser::request::parse_request_line;
use rusty_proxy::proxy::client::Client;
use rusty_proxy::proxy::connection::{Action, Event, Stage};
use rusty_proxy::proxy::middleware::{Route, TlsUpgrader};
use rusty_proxy::proxy::service::{Exchange, ProxyService};
use rusty_proxy::proxy::{BuildError, IpAddress, Proxy, ProxyBuilder, SocketAddress};
use rusty_proxy::storage::StorageError;

fn read(message: &[u8]) -> RequestParts {
    let mut lines = message.split(|b| *b == b'\n').map(|line| line.strip_suffix(b"\r").unwrap_or(line));
    let line = parse_request_line(lines.next().unwrap()).unwrap();
    let mut headers = Headers::new();
    for header in lines {
        if header.is_empty() {
            break;
        }
        let (name, value) = parse_header(header).unwrap();
        headers.push_field(name, value);
    }
    RequestParts { method: line.method, uri: line.uri, version: line.version, headers }
}

fn service(is_tls: bool) -> ProxyService<u8> {
    ProxyService { is_tls, callback: None }
}

#[test]
fn plaintext_request_is_forwarded_clean() {
    let parts = read(
        b"GET http://origin.test/path?x=1 HTTP/1.1\r\nHost: origin.test\r\nProxy-Connection: keep-alive\r\n\r\n",
    );
    match service(false).plan(parts) {
        Exchange::Forward { parts, host, port, is_tls } => {
            assert_eq!(host, "origin.test");
            assert_eq!(port, 80);
            assert!(!is_tls);
            assert!(!parts.headers.contains_key("proxy-connection"));
            assert_eq!(parts.uri.host, None);
            assert_eq!(parts.uri.scheme, None);
            let seen = Request::from((parts, Vec::new(), is_tls));
            assert!(!seen.is_https());
            assert_eq!(seen.method(), "GET");
            assert_eq!(seen.path(), "/path");
            assert_eq!(
                seen.query_params().as_ref().unwrap().to_pairs(),
                vec![(String::from("x"), String::from("1"))]
            );
            assert!(!seen.headers().contains_key("proxy-connection"));
            assert!(seen.headers().contains_key("host"));
        }
        other => panic!("{:?}", other),
    }
}

#[test]
fn plaintext_request_to_a_port() {
    let parts = read(b"GET http://origin.test:8080/ HTTP/1.1\r\nProxy-Connection: close\r\n\r\n");
    match service(false).plan(parts) {
        Exchange::Forward { host, port, .. } => {
            assert_eq!(host, "origin.test");
            assert_eq!(port, 8080);
        }
        other => panic!("{:?}", other),
    }
}

#[test]
fn tunnelled_request_goes_to_the_host_header() {
    let parts = read(b"GET /secret HTTP/1.1\r\nHost: origin.test\r\n\r\n");
    match service(true).plan(parts) {
        Exchange::Forward { parts, host, port, is_tls } => {
            assert_eq!(host, "origin.test");
            assert_eq!(port, 443);
            assert!(is_tls);
            assert_eq!(parts.uri.path, "/secret");
            assert!(parts.headers.contains_key("host"));
            let seen = Request::from((parts, Vec::new(), is_tls));
            assert!(seen.is_https());
            assert_eq!(seen.path(), "/secret");
        }
        other => panic!("{:?}", other),
    }
    let parts = read(b"GET /secret HTTP/1.1\r\nHost: origin.test:8443\r\nProxy-Connection: x\r\n\r\n");
    match service(true).plan(parts) {
        Exchange::Forward { parts, host, port, .. } => {
            assert_eq!(host, "origin.test");
            assert_eq!(port, 8443);
            assert!(parts.headers.contains_key("proxy-connection"));
        }
        other => panic!("{:?}", other),
    }
}

#[test]
fn tunnelled_request_without_origin() {
    let parts = read(b"GET /secret HTTP/1.1\r\nAccept: */*\r\n\r\n");
    assert!(matches!(service(true).plan(parts), Exchange::Unroutable));
    let parts = read(b"GET /secret HTTP/1.1\r\nHost: origin.test:\r\n\r\n");
    assert!(matches!(service(true).plan(parts), Exchange::Unroutable));
}

#[test]
fn bad_proxy_request_is_answered_with_400() {
    let parts = read(b"GET /rel HTTP/1.1\r\nProxy-Connection: keep-alive\r\n\r\n");
    match service(false).plan(parts) {
        Exchange::Reject { status, body } => {
            assert_eq!(status, 400);
            assert_eq!(body, "request uri is relative");
        }
        other => panic!("{:?}", other),
    }
    let parts = read(b"GET http://origin.test/ HTTP/1.1\r\nHost: origin.test\r\n\r\n");
    match service(false).plan(parts) {
        Exchange::Reject { status, body } => {
            assert_eq!(status, 400);
            assert_eq!(body, "proxy-connection header is absent");
        }
        other => panic!("{:?}", other),
    }
}

#[test]
fn response_is_read_only_for_a_callback() {
    assert!(!service(false).observes());
    let with_callback = ProxyService { is_tls: true, callback: Some(7u8) };
    assert!(with_callback.observes());
}

#[test]
fn connect_goes_into_a_tunnel() {
    let upgrader = TlsUpgrader::new(service(false), service(true), ());
    assert_eq!(upgrader.route("CONNECT"), Route::Tunnel);
    assert_eq!(upgrader.route("GET"), Route::Inner);
    assert_eq!(upgrader.route("connect"), Route::Inner);
    assert_eq!(upgrader.route(""), Route::Inner);
    assert_eq!(Route::Tunnel.answer_status(), Some(200));
    assert_eq!(Route::Inner.answer_status(), None);
    assert!(!upgrader.inner.is_tls);
    assert!(upgrader.inner_tls.is_tls);
}

#[test]
fn client_connection() {
    let plain = Client::connection(String::from("origin.test"), 80, false);
    assert_eq!(plain.host, "origin.test");
    assert_eq!(plain.port, 80);
    assert_eq!(plain.server_name, None);
    assert!(plain.preserve_header_case && plain.title_case_headers);
    let secure = Client::connection(String::from("origin.test"), 443, true);
    assert_eq!(secure.server_name.as_deref(), Some("origin.test"));
    assert_eq!(secure.port, 443);
}

fn localhost() -> IpAddress {
    IpAddress::V4([127, 0, 0, 1])
}

#[test]
fn builder_settles_the_address_first() {
    let none: ProxyBuilder<u8> = Proxy::builder();
    assert_eq!(none.build(None).unwrap_err(), BuildError::NoHost);
    let no_host: ProxyBuilder<u8> = ProxyBuilder::new().with_port(8080);
    assert_eq!(no_host.build(None).unwrap_err(), BuildError::NoHost);
    let no_port: ProxyBuilder<u8> = ProxyBuilder::new().with_host(String::from("127.0.0.1"));
    assert_eq!(no_port.build(Some(localhost())).unwrap_err(), BuildError::NoPort);
    let bad_host: ProxyBuilder<u8> =
        ProxyBuilder::new().with_host(String::from("localhost")).with_port(8080);
    assert_eq!(bad_host.host().as_deref(), Some("localhost"));
    assert_eq!(bad_host.build(None).unwrap_err(), BuildError::InvalidHost);
    let no_tls: ProxyBuilder<u8> =
        ProxyBuilder::new().with_host(String::from("127.0.0.1")).with_port(8080);
    assert_eq!(no_tls.build(Some(localhost())).unwrap_err(), BuildError::NoSSL);
}

#[test]
fn builder_makes_a_proxy() {
    let proxy = ProxyBuilder::new()
        .with_host(String::from("127.0.0.1"))
        .with_port(8080)
        .with_tls(String::from("cert.pem"), String::from("key.pem"))
        .with_callback(5u8)
        .build(Some(localhost()))
        .unwrap();
    let (addr, cert, key, callback) = proxy.into_parts();
    assert_eq!(addr, SocketAddress { ip: localhost(), port: 8080 });
    assert_eq!(cert, "cert.pem");
    assert_eq!(key, "key.pem");
    assert_eq!(callback, Some(5));
    let whole = SocketAddress { ip: IpAddress::V6([0, 0, 0, 0, 0, 0, 0, 1]), port: 9090 };
    let proxy: Proxy<u8> = ProxyBuilder::new()
        .with_host(String::from("not an address"))
        .with_addr(whole)
        .with_tls(String::from("c"), String::from("k"))
        .build(None)
        .unwrap();
    let (addr, _, _, callback) = proxy.into_parts();
    assert_eq!(addr, whole);
    assert_eq!(callback, None);
}

#[test]
fn build_error_messages() {
    assert_eq!(BuildError::NoHost.message(), "host is not specified");
    assert_eq!(BuildError::InvalidHost.message(), "given host is not a valid ip");
    assert_eq!(BuildError::NoPort.message(), "connection port is not specified");
    assert_eq!(BuildError::NoSSL.message(), "not given ssl certificates");
    assert_eq!(StorageError::Unknown.message(), "unknown storage error");
}

fn some(text: &str) -> Option<String> {
    Some(String::from(text))
}

#[test]
fn config_from_values() {
    let config = Config::from_values(
        some("127.0.0.1"),
        some("8080"),
        some("cert.pem"),
        some("key.pem"),
        some("mongodb://localhost"),
    )
    .unwrap();
    assert_eq!(config.proxy_host(), "127.0.0.1");
    assert_eq!(config.proxy_port(), 8080);
    assert_eq!(config.ssl_certificate(), "cert.pem");
    assert_eq!(config.ssl_key(), "key.pem");
    assert_eq!(config.mongodb_uri(), "mongodb://localhost");
}

#[test]
fn config_tells_the_first_that_is_missing() {
    let missing = |name: &str| ConfigParsingError::MissingParameter(String::from(name));
    assert_eq!(
        Config::from_values(None, None, None, None, None).unwrap_err(),
        missing("RUSTY_PROXY_HOST")
    );
    assert_eq!(
        Config::from_values(some("h"), None, None, None, None).unwrap_err(),
        missing("RUSTY_PROXY_PORT")
    );
    assert_eq!(
        Config::from_values(some("h"), some("x"), None, some("k"), None).unwrap_err(),
        missing("RUSTY_PROXY_SSL_CERTIFICATE")
    );
    assert_eq!(
        Config::from_values(some("h"), some("x"), some("c"), None, None).unwrap_err(),
        missing("RUSTY_PROXY_SSL_PRIVATE_KEY")
    );
    assert_eq!(
        Config::from_values(some("h"), some("x"), some("c"), some("k"), None).unwrap_err(),
        missing("MONGO_DB_CONNECTION_URL")
    );
    assert_eq!(
        Config::from_values(some("h"), some("70000"), some("c"), some("k"), some("u")).unwrap_err(),
        ConfigParsingError::InvalidParameterType {
            param_name: String::from("RUSTY_PROXY_PORT"),
            expected: String::from("u16"),
        }
    );
}

#[test]
fn config_error_messages() {
    assert_eq!(
        ConfigParsingError::MissingParameter(String::from("RUSTY_PROXY_HOST")).message(),
        "missing parameter \"RUSTY_PROXY_HOST\""
    );
    assert_eq!(
        ConfigParsingError::InvalidParameterType {
            param_name: String::from("RUSTY_PROXY_PORT"),
            expected: String::from("u16"),
        }
        .message(),
        "invalid type of parameter \"RUSTY_PROXY_PORT\", expected \"u16\""
    );
    assert_eq!(
        ConfigParsingError::MissingParameter(String::from("a\"b\n")).message(),
        "missing parameter \"a\\\"b\\n\""
    );
}

#[test]
fn lookup_answers() {
    assert_eq!(lookup_status(true), 200);
    assert_eq!(lookup_status(false), 404);
}

#[test]
fn exchange_without_callback_streams_the_response() {
    let service = service(false);
    let parts = read(
        b"GET http://origin.test/path?x=1 HTTP/1.1\r\nHost: origin.test\r\nProxy-Connection: keep-alive\r\n\r\n",
    );
    let (stage, action) = service.step(Stage::ReadRequest, Event::Request(parts));
    assert_eq!(stage, Stage::Forward);
    match action {
        Action::Send { parts, host, port, is_tls } => {
            assert_eq!(host, "origin.test");
            assert_eq!(port, 80);
            assert!(!is_tls);
            assert!(!parts.headers.contains_key("proxy-connection"));
        }
        other => panic!("{:?}", other),
    }
    let (stage, action) = service.step(stage, Event::Response);
    assert_eq!(stage, Stage::Done);
    assert!(matches!(action, Action::Answer));
    let (stage, action) = service.step(stage, Event::ResponseBody);
    assert_eq!(stage, Stage::Fail);
    assert!(matches!(action, Action::Abort));
}

#[test]
fn exchange_with_callback_tells_it_once() {
    let service = ProxyService { is_tls: true, callback: Some(1u8) };
    let events = || {
        vec![
            Event::Request(read(b"GET /secret HTTP/1.1\r\nHost: origin.test\r\n\r\n")),
            Event::Response,
            Event::ResponseBody,
            Event::ResponseBody,
            Event::Response,
        ]
    };
    let mut stage = Stage::ReadRequest;
    let mut told = 0;
    let mut stages = Vec::new();
    for event in events() {
        let (next, action) = service.step(stage, event);
        if matches!(action, Action::Dispatch) {
            told += 1;
        }
        stages.push(next);
        stage = next;
    }
    assert_eq!(told, 1);
    assert_eq!(
        stages,
        vec![Stage::Forward, Stage::MaterializeResponse, Stage::Done, Stage::Fail, Stage::Fail]
    );
}

#[test]
fn exchange_that_fails_upstream_tells_nobody() {
    let service = ProxyService { is_tls: true, callback: Some(1u8) };
    let parts = read(b"GET /secret HTTP/1.1\r\nHost: origin.test\r\n\r\n");
    let (stage, _) = service.step(Stage::ReadRequest, Event::Request(parts));
    let (stage, action) = service.step(stage, Event::UpstreamFailed);
    assert_eq!(stage, Stage::Fail);
    assert!(matches!(action, Action::Abort));
    let (stage, action) = service.step(stage, Event::ResponseBody);
    assert_eq!(stage, Stage::Fail);
    assert!(matches!(action, Action::Abort));
    let parts = read(b"GET /secret HTTP/1.1\r\nHost: origin.test\r\n\r\n");
    let (stage, _) = service.step(Stage::ReadRequest, Event::Request(parts));
    let (stage, _) = service.step(stage, Event::Response);
    let (stage, action) = service.step(stage, Event::ResponseBodyFailed);
    assert_eq!(stage, Stage::Fail);
    assert!(matches!(action, Action::Abort));
}

#[test]
fn connect_in_the_clear_gets_a_tunnel() {
    let parts = read(b"CONNECT origin.test:443 HTTP/1.1\r\nHost: origin.test:443\r\n\r\n");
    let (stage, action) = service(false).step(Stage::ReadRequest, Event::Request(parts));
    assert_eq!(stage, Stage::TlsAccept);
    assert!(matches!(action, Action::Upgrade { status: 200 }));
    let (done, action) = service(false).step(stage, Event::TlsAccepted);
    assert_eq!(done, Stage::Done);
    assert!(matches!(action, Action::ServeTunnel));
    let (failed, action) = service(false).step(stage, Event::TlsFailed);
    assert_eq!(failed, Stage::Fail);
    assert!(matches!(action, Action::Abort));
    let parts = read(b"CONNECT origin.test:443 HTTP/1.1\r\nHost: origin.test:443\r\n\r\n");
    let (stage, action) = service(true).step(Stage::ReadRequest, Event::Request(parts));
    assert_eq!(stage, Stage::Forward);
    assert!(matches!(action, Action::Send { port: 443, is_tls: true, .. }));
}

#[test]
fn bad_proxy_request_ends_the_exchange() {
    let parts = read(b"GET /rel HTTP/1.1\r\nProxy-Connection: keep-alive\r\n\r\n");
    let (stage, action) = service(false).step(Stage::ReadRequest, Event::Request(parts));
    assert_eq!(stage, Stage::Done);
    match action {
        Action::Reject { status, body } => {
            assert_eq!(status, 400);
            assert_eq!(body, "request uri is relative");
        }
        other => panic!("{:?}", other),
    }
    let parts = read(b"GET /secret HTTP/1.1\r\nAccept: */*\r\n\r\n");
    let (stage, action) = service(true).step(Stage::ReadRequest, Event::Request(parts));
    assert_eq!(stage, Stage::Fail);
    assert!(matches!(action, Action::Abort));
}
