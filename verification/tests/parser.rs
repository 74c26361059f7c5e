use rusty_proxy::http::message::{Uri, Version};
use rusty_proxy::http::parser::primitives::{
    header_field, parse_comment, parse_header, parse_token, parse_uri, split_header,
};
use rusty_proxy::http::parser::request::{
    assemble_request_line, parse_request_line, split_request_line,
};

#[test]
fn test_parse_comment() {
    let positive_tests: Vec<(&[u8], usize)> = vec![
        (b"(Some simple comment)12345", 20),
        (b"((()))", 5),
        (b"(\\n\\n)", 5),
        (b"(\\t\t long     comment (\\\\))", 26),
        (b"()", 1),
    ];
    for (bytes, expected) in positive_tests {
        let result = parse_comment(bytes).unwrap();
        assert_eq!(result, expected);
    }

    let empty_comment_err = String::from("passed comment line is empty, expected at least ()");

    let unexpected_control_sequence = String::from("unexpected control sequence inside a comment");

    let unexpected_eol = String::from("unexpected end of line, expected )");

    let wrong_start = String::from("passed line does not starts with open parenthesis (");

    let negative_tests: Vec<(&[u8], &String)> = vec![
        (b"", &empty_comment_err),
        (b"(", &empty_comment_err),
        (b"g()", &wrong_start),
        (b" ()", &wrong_start),
        (b"(\n)", &unexpected_control_sequence),
        (b"(\r)", &unexpected_control_sequence),
        (b"(()", &unexpected_eol),
        (b"(Some pretty valid comment \t ()", &unexpected_eol),
    ];

    for (bytes, expected_error) in negative_tests {
        let result = parse_comment(bytes).unwrap_err();
        assert_eq!(result, *expected_error);
    }
}

#[test]
fn test_parse_header() {
    let positive_tests: Vec<(&[u8], &str, &str)> = vec![
        (
            b"Accept-Encoding:    gzip, deflate",
            "accept-encoding",
            "gzip, deflate",
        ),
        (b"Referer:", "referer", ""),
        (b"Referer:         ", "referer", ""),
    ];
    for (input, expected_name, expected_value) in positive_tests {
        let (name, value) = parse_header(input).unwrap();
        assert_eq!(name.as_str(), expected_name);
        assert_eq!(value.to_str().unwrap(), expected_value);
    }
}

#[test]
fn test_parse_request_line() {
    let line = b"GET https://docs.rs/bytes/1.10.1/bytes/struct.Bytes.html HTTP 1.1";
    let uri = Uri::parse(b"https://docs.rs/bytes/1.10.1/bytes/struct.Bytes.html").unwrap();
    let result = parse_request_line(line).unwrap();
    assert_eq!(result.uri, uri);
    assert_eq!(result.method, "GET");
    assert_eq!(result.version, Version::Http11);
}

#[test]
fn request_line_takes_the_uri_apart() {
    let line = b"GET https://docs.rs/bytes/1.10.1/bytes/struct.Bytes.html?a=1 HTTP/1.0\r\n";
    let result = parse_request_line(line).unwrap();
    assert_eq!(result.uri.scheme.as_deref(), Some("https"));
    assert_eq!(result.uri.host.as_deref(), Some("docs.rs"));
    assert_eq!(result.uri.port, None);
    assert_eq!(result.uri.path, "/bytes/1.10.1/bytes/struct.Bytes.html");
    assert_eq!(result.uri.query.as_deref(), Some("a=1"));
    assert_eq!(result.version, Version::Http10);
}

#[test]
fn token_and_uri_ends() {
    assert_eq!(parse_token(b"GET /index"), Ok(2));
    assert_eq!(parse_token(b"GET"), Ok(2));
    assert_eq!(parse_token(b""), Err(String::from("empty token")));
    assert_eq!(parse_token(b" GET"), Err(String::from("empty token")));
    assert_eq!(parse_uri(b"/a/b?c=d HTTP/1.1"), Ok(7));
    assert_eq!(parse_uri(b"/"), Ok(0));
    assert_eq!(parse_uri(b""), Err(String::from("empty uri")));
    assert_eq!(parse_uri(b"\t/"), Err(String::from("empty uri")));
}

#[test]
fn header_line_errors() {
    assert_eq!(parse_header(b""), Err(String::from("empty token")));
    assert_eq!(parse_header(b": value"), Err(String::from("empty token")));
    assert_eq!(
        parse_header(b"Host"),
        Err(String::from("unexpected symbol or eol after field name, expected :"))
    );
    assert_eq!(
        parse_header(b"Host example.com"),
        Err(String::from("unexpected symbol or eol after field name, expected :"))
    );
    assert_eq!(
        parse_header(b"Host: bad\nvalue"),
        Err(String::from("failed to parse header value"))
    );
    let mut long = vec![b'a'; 70000];
    long.extend(b": value");
    assert_eq!(parse_header(&long), Err(String::from("failed to parse header name")));
}

#[test]
fn header_bounds_and_fields() {
    assert_eq!(split_header(b"Accept-Encoding:    gzip, deflate"), Ok((15, 20)));
    assert_eq!(split_header(b"Referer:"), Ok((7, 8)));
    assert_eq!(split_header(b"Referer: \t "), Ok((7, 11)));
    let (name, value) = header_field(Some(String::from("x")), b"v").unwrap();
    assert_eq!(name, "x");
    assert_eq!(value.as_bytes(), b"v");
    assert_eq!(header_field(None, b"v"), Err(String::from("failed to parse header name")));
    assert_eq!(
        header_field(Some(String::from("x")), b"\x00"),
        Err(String::from("failed to parse header value"))
    );
    assert_eq!(header_field(None, b"\x00"), Err(String::from("failed to parse header name")));
}

#[test]
fn request_line_bounds_and_assembly() {
    assert_eq!(split_request_line(b"GET /index.html HTTP/1.1"), Ok((3, 11)));
    assert_eq!(split_request_line(b"GET\t/ x"), Ok((3, 1)));
    let uri = Uri::parse(b"/index.html");
    let line = assemble_request_line(String::from("GET"), uri, b"/index.html", b" HTTP/1.1\r\n").unwrap();
    assert_eq!(line.method, "GET");
    assert_eq!(line.uri.path, "/index.html");
    assert_eq!(line.version, Version::Http11);
    assert_eq!(
        assemble_request_line(String::from("GET"), None, b"/a", b" HTTP/1.1").unwrap_err(),
        "invalid uri: /a"
    );
    assert_eq!(
        assemble_request_line(String::from("GET"), None, b"\xff", b"").unwrap_err(),
        "invalid uri: "
    );
}

#[test]
fn header_value_keeps_inner_and_trailing_whitespace() {
    let (name, value) = parse_header(b"X-Thing: \t a  b ").unwrap();
    assert_eq!(name, "x-thing");
    assert_eq!(value.as_bytes(), b"a  b ");
    assert_eq!(value.to_str().unwrap(), "a  b ");
}

#[test]
fn header_value_that_is_not_text() {
    let (_, value) = parse_header(b"X-Bin: caf\xc3\xa9").unwrap();
    assert_eq!(value.as_bytes(), b"caf\xc3\xa9");
    assert_eq!(value.to_str(), None);
}

#[test]
fn request_line_errors() {
    assert_eq!(
        parse_request_line(b"").unwrap_err(),
        "failed when parsing request method"
    );
    assert_eq!(
        parse_request_line(b" GET / HTTP/1.1").unwrap_err(),
        "failed when parsing request method"
    );
    assert_eq!(
        parse_request_line(b"G / HTTP/1.1").unwrap_err(),
        "unexpected end of line when parsing request method"
    );
    assert_eq!(
        parse_request_line(b"GET").unwrap_err(),
        "unexpected end of line when parsing request URI"
    );
    assert_eq!(
        parse_request_line(b"GET ").unwrap_err(),
        "unexpected end of line when parsing request URI"
    );
    assert_eq!(parse_request_line(b"GET  / HTTP/1.1").unwrap_err(), "empty uri");
    assert_eq!(
        parse_request_line(b"GET http://a{b/ HTTP/1.1").unwrap_err(),
        "invalid uri: http://a{b/"
    );
    assert_eq!(
        parse_request_line(b"GET / HTTP/1.").unwrap_err(),
        "unexpected end of line when parsing HTTP version"
    );
    assert_eq!(
        parse_request_line(b"GET /").unwrap_err(),
        "unexpected end of line when parsing HTTP version"
    );
    assert_eq!(
        parse_request_line(b"GET / HTTP/2.0").unwrap_err(),
        "unsupported protocol version: HTTP/2.0"
    );
    assert_eq!(
        parse_request_line(b"GET / HTTP/1.\xff").unwrap_err(),
        "unsupported protocol version: "
    );
}

#[test]
fn request_line_versions() {
    assert_eq!(parse_request_line(b"GET / HTTP/1.1").unwrap().version, Version::Http11);
    assert_eq!(parse_request_line(b"GET / HTTP 1.1").unwrap().version, Version::Http11);
    assert_eq!(parse_request_line(b"GET / HTTP/1.0").unwrap().version, Version::Http10);
    assert_eq!(parse_request_line(b"GET / HTTP 1.0").unwrap().version, Version::Http10);
    let connect = parse_request_line(b"CONNECT origin.test:443 HTTP/1.1\r\n").unwrap();
    assert_eq!(connect.method, "CONNECT");
    assert_eq!(connect.uri.host.as_deref(), Some("origin.test"));
    assert_eq!(connect.uri.port, Some(443));
    assert_eq!(connect.uri.scheme, None);
    assert_eq!(connect.uri.path, "");
}

#[test]
fn comment_escapes() {
    assert_eq!(parse_comment(b"(\\))"), Ok(3));
    assert_eq!(parse_comment(b"(\\()"), Ok(3));
    assert_eq!(parse_comment(b"(\\\\)"), Ok(3));
    assert_eq!(parse_comment(b"(a\\\n)"), Ok(4));
    assert_eq!(parse_comment(b"(\\\xc3)"), Ok(3));
    assert_eq!(
        parse_comment(b"(\\)").unwrap_err(),
        "unexpected end of line, expected )"
    );
    assert_eq!(parse_comment(b"(\xc3\xa9)"), Ok(3));
    assert_eq!(
        parse_comment(b"(\x7f)").unwrap_err(),
        "unexpected control sequence inside a comment"
    );
}

#[test]
fn parsers_answer_inside_the_input() {
    let inputs: Vec<&[u8]> = vec![b"a", b"GET / HTTP/1.1", b"(x)", b"()abc", b"/p?q", b"token rest"];
    for input in inputs {
        if let Ok(end) = parse_token(input) {
            assert!(end < input.len());
        }
        if let Ok(end) = parse_uri(input) {
            assert!(end < input.len());
        }
        if let Ok(end) = parse_comment(input) {
            assert!(end < input.len());
        }
    }
}
