use rusty_proxy::dto::body::SimpleBody;
use rusty_proxy::dto::reqresp::Reqresp;
use rusty_proxy::dto::request::Request;
use rusty_proxy::dto::response::Response;
use rusty_proxy::http::message::{
    HeaderValue, Headers, RequestParts, ResponseParts, Uri, Version,
};
use rusty_proxy::scanner::{
    contains_bytes, is_reflected, ProbeOutcome, ScannerError, SimpleScanner, XssScan,
    ORIGINAL_XSS_STRING, XSS_STRING,
};

fn capture(uri: &str, fields: &[(&str, &str)], body: &[u8]) -> Reqresp {
    let mut headers = Headers::new();
    for (name, value) in fields {
        assert!(headers.append(name, HeaderValue::from_bytes(value.as_bytes()).unwrap()));
    }
    let parts = RequestParts {
        method: String::from("GET"),
        uri: Uri::parse(uri.as_bytes()).unwrap(),
        version: Version::Http11,
        headers,
    };
    let req = Request::from((parts, body.to_vec(), false));
    let resp = Response::from((
        ResponseParts { status: 200, version: Version::Http11, headers: Headers::new() },
        Vec::new(),
    ));
    Reqresp::new(req, resp)
}

fn decode(text: &str) -> Vec<u8> {
    let bytes = text.as_bytes();
    let mut out = Vec::new();
    let mut i = 0;
    while i < bytes.len() {
        if bytes[i] == b'%' && i + 2 < bytes.len() {
            let hex = std::str::from_utf8(&bytes[i + 1..i + 3]).unwrap();
            out.push(u8::from_str_radix(hex, 16).unwrap());
            i += 3;
        } else {
            out.push(bytes[i]);
            i += 1;
        }
    }
    out
}

fn first_query_value(req: &Request, key: &str) -> String {
    req.query_params().as_ref().unwrap().get(key).unwrap().clone()
}

fn first_form_value(req: &Request, key: &str) -> String {
    match req.body() {
        SimpleBody::UrlEncoded(form) => form.get(key).unwrap().clone(),
        SimpleBody::Blob(_) => panic!("the body is no form"),
    }
}

fn run(mut scan: XssScan, mut upstream: impl FnMut(&Request) -> ProbeOutcome) -> (Result<Vec<String>, ScannerError>, usize) {
    let mut sent = 0;
    while let Some(req) = scan.next_request() {
        sent += 1;
        scan.record(upstream(&req));
    }
    (scan.result().unwrap(), sent)
}

#[test]
fn marker_in_either_form() {
    assert!(is_reflected(XSS_STRING.as_bytes()));
    assert!(is_reflected(ORIGINAL_XSS_STRING.as_bytes()));
    assert!(is_reflected(b"<p>vulnerable'\"><img src onerror=alert()></p>"));
    assert!(is_reflected(
        b"\xff\x00vulnerable%27%22%3E%3Cimg%20src%20onerror%3Dalert%28%29%3E\x00"
    ));
    assert!(!is_reflected(b""));
    assert!(!is_reflected(b"vulnerable"));
    assert!(!is_reflected(b"vulnerable'\"><img src onerror=alert()"));
    assert!(!is_reflected(b"vulnerable&#39;&quot;&gt;&lt;img src onerror=alert()&gt;"));
}

#[test]
fn substring_search() {
    assert!(contains_bytes(b"abc", b""));
    assert!(contains_bytes(b"", b""));
    assert!(!contains_bytes(b"", b"a"));
    assert!(contains_bytes(b"abc", b"abc"));
    assert!(contains_bytes(b"aab", b"ab"));
    assert!(contains_bytes(b"abcabd", b"abd"));
    assert!(!contains_bytes(b"abcabd", b"abe"));
    assert!(!contains_bytes(b"ab", b"abc"));
}

#[test]
fn nothing_to_scan_sends_nothing() {
    let scanner = SimpleScanner {};
    let scan = scanner.scan_xss(capture("/path", &[], b"user=a"));
    assert!(scan.next_request().is_none());
    let (result, sent) = run(scan, |_| panic!("a request was sent"));
    assert_eq!(result, Ok(Vec::new()));
    assert_eq!(sent, 0);
}

#[test]
fn reflected_query_parameter_is_found() {
    let scanner = SimpleScanner {};
    let scan = scanner.scan_xss(capture("/search?q=hi&p=ok", &[], b""));
    let (result, sent) = run(scan, |req| {
        ProbeOutcome::Body(first_query_value(req, "q").into_bytes())
    });
    assert_eq!(result, Ok(vec![String::from("q")]));
    assert_eq!(sent, 2);
}

#[test]
fn decoded_echo_of_a_query_parameter_is_found() {
    let scanner = SimpleScanner {};
    let scan = scanner.scan_xss(capture("/search?q=hi&p=ok", &[], b""));
    let (result, _) = run(scan, |req| {
        let mut body = b"<html>".to_vec();
        body.extend(decode(&first_query_value(req, "p")));
        body.extend(b"</html>");
        ProbeOutcome::Body(body)
    });
    assert_eq!(result, Ok(vec![String::from("p")]));
}

#[test]
fn reflected_form_parameter_is_found() {
    let scanner = SimpleScanner {};
    let scan = scanner.scan_xss(capture(
        "/post",
        &[("Content-Type", "application/x-www-form-urlencoded")],
        b"user=a&comment=b",
    ));
    let (result, sent) = run(scan, |req| {
        ProbeOutcome::Body(first_form_value(req, "comment").into_bytes())
    });
    assert_eq!(result, Ok(vec![String::from("comment")]));
    assert_eq!(sent, 2);
}

#[test]
fn probes_go_query_first_and_one_for_each_value() {
    let scanner = SimpleScanner {};
    let mut scan = scanner.scan_xss(capture(
        "/post?a=1&b=2&a=3",
        &[("Content-Type", "application/x-www-form-urlencoded")],
        b"c=4",
    ));
    let mut seen = Vec::new();
    while let Some(req) = scan.next_request() {
        let query = req.query_params().as_ref().unwrap().to_pairs();
        let form = match req.body() {
            SimpleBody::UrlEncoded(form) => form.to_pairs(),
            SimpleBody::Blob(_) => panic!("the body is no form"),
        };
        seen.push((query, form));
        scan.record(ProbeOutcome::Body(XSS_STRING.as_bytes().to_vec()));
    }
    let pair = |k: &str, v: &str| (String::from(k), String::from(v));
    assert_eq!(
        seen,
        vec![
            (vec![pair("a", XSS_STRING), pair("a", "3"), pair("b", "2")], vec![pair("c", "4")]),
            (vec![pair("a", XSS_STRING), pair("a", "3"), pair("b", "2")], vec![pair("c", "4")]),
            (vec![pair("a", "1"), pair("a", "3"), pair("b", XSS_STRING)], vec![pair("c", "4")]),
            (vec![pair("a", "1"), pair("a", "3"), pair("b", "2")], vec![pair("c", ORIGINAL_XSS_STRING)]),
        ]
    );
    assert_eq!(
        scan.result(),
        Some(Ok(vec![String::from("a"), String::from("a"), String::from("b"), String::from("c")]))
    );
}

#[test]
fn a_failure_ends_the_scan_without_a_partial_result() {
    let scanner = SimpleScanner {};
    let mut scan = scanner.scan_xss(capture("/search?q=hi&p=ok&r=no", &[], b""));
    assert_eq!(scan.result(), None);
    scan.record(ProbeOutcome::Body(XSS_STRING.as_bytes().to_vec()));
    assert_eq!(scan.result(), None);
    scan.record(ProbeOutcome::BodyLoadFailed);
    assert!(scan.next_request().is_none());
    assert_eq!(scan.result(), Some(Err(ScannerError::BodyLoadFailed)));
    scan.record(ProbeOutcome::Body(XSS_STRING.as_bytes().to_vec()));
    scan.record(ProbeOutcome::RequestFailed);
    assert_eq!(scan.result(), Some(Err(ScannerError::BodyLoadFailed)));
    let mut scan = scanner.scan_xss(capture("/search?q=hi", &[], b""));
    scan.record(ProbeOutcome::RequestFailed);
    assert_eq!(scan.result(), Some(Err(ScannerError::RequestFailed)));
}

#[test]
fn outcomes_after_the_end_change_nothing() {
    let scanner = SimpleScanner {};
    let mut scan = scanner.scan_xss(capture("/search?q=hi", &[], b""));
    scan.record(ProbeOutcome::Body(Vec::new()));
    assert_eq!(scan.result(), Some(Ok(Vec::new())));
    scan.record(ProbeOutcome::Body(XSS_STRING.as_bytes().to_vec()));
    scan.record(ProbeOutcome::RequestFailed);
    assert_eq!(scan.result(), Some(Ok(Vec::new())));
}

#[test]
fn scanner_error_messages() {
    assert_eq!(ScannerError::Unknown.message(), "unknown scanner error");
    assert_eq!(ScannerError::RequestFailed.message(), "failed to send request to remote host");
    assert_eq!(ScannerError::BodyLoadFailed.message(), "failed to download the response body");
}

#[test]
fn resend_goes_to_the_host_of_the_header() {
    let scanner = SimpleScanner {};
    let plain = capture("/path?x=1", &[("Host", "origin.test")], b"hello").req;
    let resend = scanner.resend_request(plain).unwrap();
    assert_eq!(resend.host, "origin.test");
    assert_eq!(resend.port, 80);
    assert!(!resend.is_https);
    assert_eq!(resend.parts.uri.path, "/path");
    assert_eq!(resend.parts.uri.query.as_deref(), Some("x=1"));
    assert_eq!(resend.body, b"hello");
    let with_port = capture("/", &[("Host", "origin.test:8443")], b"").req;
    let resend = scanner.resend_request(with_port).unwrap();
    assert_eq!(resend.host, "origin.test");
    assert_eq!(resend.port, 8443);
    let no_host = capture("/", &[("Accept", "*/*")], b"").req;
    assert!(scanner.resend_request(no_host).is_none());
    let bad_port = capture("/", &[("Host", "origin.test:http")], b"").req;
    assert!(scanner.resend_request(bad_port).is_none());
}

#[test]
fn resend_over_tls_goes_to_443() {
    let mut headers = Headers::new();
    assert!(headers.append("Host", HeaderValue::from_bytes(b"origin.test").unwrap()));
    let parts = RequestParts {
        method: String::from("GET"),
        uri: Uri::parse(b"/secret").unwrap(),
        version: Version::Http11,
        headers,
    };
    let req = Request::from((parts, Vec::new(), true));
    let resend = SimpleScanner {}.resend_request(req).unwrap();
    assert_eq!(resend.host, "origin.test");
    assert_eq!(resend.port, 443);
    assert!(resend.is_https);
}
