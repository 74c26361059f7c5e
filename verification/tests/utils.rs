use rusty_proxy::http::message::{HeaderValue, Headers, RequestParts, Uri, Version};
use rusty_proxy::proxy::utils::{
    clean_request, extract_host, parse_host_header, parse_port, validate_request,
    ProxyRequestError,
};

fn parts(uri: &[u8], headers: &[(&str, &[u8])]) -> RequestParts {
    let mut list = Headers::new();
    for (name, value) in headers {
        assert!(list.append(name, HeaderValue::from_bytes(value).unwrap()));
    }
    RequestParts {
        method: String::from("GET"),
        uri: Uri::parse(uri).unwrap(),
        version: Version::Http11,
        headers: list,
    }
}

#[test]
fn validate_needs_header_and_host() {
    let ok = parts(b"http://origin.test/path", &[("Proxy-Connection", b"keep-alive")]);
    assert_eq!(validate_request(&ok), Ok(()));
    let any_value = parts(b"http://origin.test/path", &[("proxy-connection", b"")]);
    assert_eq!(validate_request(&any_value), Ok(()));
    let relative = parts(b"/rel", &[("Proxy-Connection", b"keep-alive")]);
    assert_eq!(validate_request(&relative), Err(ProxyRequestError::RelativeUri));
    let no_header = parts(b"http://origin.test/path", &[("Host", b"origin.test")]);
    assert_eq!(
        validate_request(&no_header),
        Err(ProxyRequestError::NoProxyConnectionHeader)
    );
    let neither = parts(b"/rel", &[]);
    assert_eq!(
        validate_request(&neither),
        Err(ProxyRequestError::NoProxyConnectionHeader)
    );
}

#[test]
fn proxy_request_error_messages() {
    assert_eq!(ProxyRequestError::RelativeUri.message(), "request uri is relative");
    assert_eq!(
        ProxyRequestError::NoProxyConnectionHeader.message(),
        "proxy-connection header is absent"
    );
}

#[test]
fn clean_strips_proxy_header_and_authority() {
    let req = parts(
        b"http://origin.test:8080/path?x=1",
        &[
            ("Host", b"origin.test"),
            ("Proxy-Connection", b"keep-alive"),
            ("Accept", b"*/*"),
            ("proxy-connection", b"close"),
        ],
    );
    let cleaned = clean_request(req);
    assert!(!cleaned.headers.contains_key("proxy-connection"));
    assert_eq!(cleaned.headers.len(), 2);
    assert_eq!(cleaned.headers.name_at(0), "host");
    assert_eq!(cleaned.headers.name_at(1), "accept");
    assert_eq!(cleaned.headers.value_at(1).as_bytes(), b"*/*");
    assert_eq!(cleaned.uri.scheme, None);
    assert_eq!(cleaned.uri.host, None);
    assert_eq!(cleaned.uri.port, None);
    assert_eq!(cleaned.uri.path, "/path");
    assert_eq!(cleaned.uri.query.as_deref(), Some("x=1"));
    assert_eq!(cleaned.method, "GET");
}

#[test]
fn extract_host_prefers_the_header() {
    let both = parts(b"http://uri.test/", &[("Host", b"header.test:81")]);
    assert_eq!(extract_host(&both), Some(String::from("header.test:81")));
    let only_uri = parts(b"http://uri.test:82/", &[]);
    assert_eq!(extract_host(&only_uri), Some(String::from("uri.test")));
    let not_ascii = parts(b"http://uri.test/", &[("Host", b"h\xc3\xa9.test")]);
    assert_eq!(extract_host(&not_ascii), Some(String::from("h\u{e9}.test")));
    let not_text = parts(b"http://uri.test/", &[("Host", b"h\xe9.test")]);
    assert_eq!(extract_host(&not_text), Some(String::from("uri.test")));
    let first_of_two = parts(b"/", &[("Host", b"one.test"), ("Host", b"two.test")]);
    assert_eq!(extract_host(&first_of_two), Some(String::from("one.test")));
    let none = parts(b"/", &[("Accept", b"*/*")]);
    assert_eq!(extract_host(&none), None);
}

#[test]
fn host_header_with_and_without_port() {
    let ok = |host: &str, port: u16| Ok((String::from(host), port));
    assert_eq!(parse_host_header(&String::from("origin.test"), 80), ok("origin.test", 80));
    assert_eq!(parse_host_header(&String::from("origin.test"), 443), ok("origin.test", 443));
    assert_eq!(parse_host_header(&String::from(""), 7), ok("", 7));
    assert_eq!(parse_host_header(&String::from("origin.test:8080"), 80), ok("origin.test", 8080));
    assert_eq!(parse_host_header(&String::from("origin.test:0"), 80), ok("origin.test", 0));
    assert_eq!(parse_host_header(&String::from("origin.test:65535"), 80), ok("origin.test", 65535));
    assert_eq!(parse_host_header(&String::from("origin.test:+81"), 80), ok("origin.test", 81));
    assert_eq!(parse_host_header(&String::from("origin.test:0081"), 80), ok("origin.test", 81));
    assert_eq!(parse_host_header(&String::from(":81"), 80), ok("", 81));
    assert_eq!(parse_host_header(&String::from("h\u{e9}te.test:81"), 80), ok("h\u{e9}te.test", 81));
    let eol = Err(String::from("unexpected eol while parsing port"));
    assert_eq!(parse_host_header(&String::from("origin.test:"), 80), eol);
    assert_eq!(parse_host_header(&String::from(":"), 80), eol);
    let invalid = Err(String::from("invalid host"));
    assert_eq!(parse_host_header(&String::from("origin.test:65536"), 80), invalid);
    assert_eq!(parse_host_header(&String::from("origin.test:http"), 80), invalid);
    assert_eq!(parse_host_header(&String::from("origin.test:-1"), 80), invalid);
    assert_eq!(parse_host_header(&String::from("origin.test:+"), 80), invalid);
    assert_eq!(parse_host_header(&String::from("origin.test:8 0"), 80), invalid);
    assert_eq!(parse_host_header(&String::from("[::1]:80"), 80), invalid);
    assert_eq!(parse_host_header(&String::from("a:1:2"), 80), invalid);
}

#[test]
fn port_parsing_agrees_with_std() {
    let samples = [
        "", "+", "-", "0", "00", "1", "80", "+80", "++80", "-80", "65535", "65536", "99999",
        "000000000000000000065535", "18446744073709551616", "12a", "a12", " 12", "12 ", "1_2",
        "\u{661}\u{662}", "4294967296", "655350",
    ];
    for sample in samples {
        assert_eq!(parse_port(sample), sample.parse::<u16>().ok(), "{}", sample);
    }
}
