use rusty_proxy::dto::body::{body_as_url_encoded, parse_body, SimpleBody};
use rusty_proxy::dto::cookies::{parse_cookies, split_bytes, trim_bytes, Cookies};
use rusty_proxy::dto::multimap::OrderedMultiMap;
use rusty_proxy::dto::reqresp::Reqresp;
use rusty_proxy::dto::request::Request;
use rusty_proxy::dto::response::Response;
use rusty_proxy::dto::to_wire::{join_pairs, request_target};
use rusty_proxy::dto::wire::{headers_to_map, says_form};
use rusty_proxy::http::message::{
    HeaderValue, Headers, RequestParts, ResponseParts, Uri, Version,
};

fn pair(key: &str, value: &str) -> (String, String) {
    (String::from(key), String::from(value))
}

fn headers(fields: &[(&str, &str)]) -> Headers {
    let mut list = Headers::new();
    for (name, value) in fields {
        assert!(list.append(name, HeaderValue::from_bytes(value.as_bytes()).unwrap()));
    }
    list
}

fn request_parts(method: &str, uri: &str, fields: &[(&str, &str)]) -> RequestParts {
    RequestParts {
        method: String::from(method),
        uri: Uri::parse(uri.as_bytes()).unwrap(),
        version: Version::Http11,
        headers: headers(fields),
    }
}

fn blob(body: &SimpleBody) -> &Vec<u8> {
    match body {
        SimpleBody::Blob(bytes) => bytes,
        SimpleBody::UrlEncoded(_) => panic!("the body is a form"),
    }
}

fn form(body: &SimpleBody) -> &OrderedMultiMap {
    match body {
        SimpleBody::UrlEncoded(form) => form,
        SimpleBody::Blob(_) => panic!("the body is no form"),
    }
}

#[test]
fn multimap_keeps_key_order_and_value_order() {
    let mut map = OrderedMultiMap::new();
    assert!(map.is_empty());
    map.insert(String::from("b"), String::from("1"));
    map.insert(String::from("a"), String::from("2"));
    map.insert(String::from("b"), String::from("3"));
    map.insert(String::from("c"), String::from("4"));
    map.insert(String::from("a"), String::from("5"));
    assert_eq!(map.len(), 3);
    assert_eq!(map.key_at(0), "b");
    assert_eq!(map.key_at(1), "a");
    assert_eq!(map.key_at(2), "c");
    assert_eq!(map.get_vec("b"), Some(&vec![String::from("1"), String::from("3")]));
    assert_eq!(map.get("a"), Some(&String::from("2")));
    assert_eq!(map.get("missing"), None);
    assert!(map.contains_key("c"));
    assert!(!map.contains_key("d"));
    assert_eq!(
        map.to_pairs(),
        vec![pair("b", "1"), pair("b", "3"), pair("a", "2"), pair("a", "5"), pair("c", "4")]
    );
}

#[test]
fn multimap_set_first_replaces_one_value() {
    let mut map = OrderedMultiMap::from_pairs(&vec![pair("k", "1"), pair("j", "2"), pair("k", "3")]);
    assert!(map.set_first("k", String::from("x")));
    assert!(!map.set_first("nope", String::from("y")));
    assert_eq!(map.to_pairs(), vec![pair("k", "x"), pair("k", "3"), pair("j", "2")]);
    let copy = map.clone();
    assert!(map.set_first("j", String::from("z")));
    assert_eq!(copy.to_pairs(), vec![pair("k", "x"), pair("k", "3"), pair("j", "2")]);
    assert_eq!(map.to_pairs(), vec![pair("k", "x"), pair("k", "3"), pair("j", "z")]);
}

#[test]
fn multimap_pairs_regroup_to_the_same_map() {
    let pairs = vec![pair("a", "1"), pair("b", "2"), pair("a", "3"), pair("", ""), pair("b", "")];
    let map = OrderedMultiMap::from_pairs(&pairs);
    let again = OrderedMultiMap::from_pairs(&map.to_pairs());
    assert_eq!(again.to_pairs(), map.to_pairs());
    assert_eq!(
        map.to_pairs(),
        vec![pair("a", "1"), pair("a", "3"), pair("b", "2"), pair("b", ""), pair("", "")]
    );
}

#[test]
fn cookies_last_value_wins() {
    let mut cookies = Cookies::new();
    cookies.insert(String::from("a"), String::from("1"));
    cookies.insert(String::from("b"), String::from("2"));
    cookies.insert(String::from("a"), String::from("3"));
    assert_eq!(cookies.len(), 2);
    assert_eq!(cookies.get("a"), Some(&String::from("3")));
    assert_eq!(cookies.get("b"), Some(&String::from("2")));
    assert_eq!(cookies.get("c"), None);
    assert_eq!(cookies.to_pairs(), vec![pair("a", "3"), pair("b", "2")]);
    assert_eq!(cookies.name_at(1), "b");
    assert_eq!(cookies.value_at(1), "2");
}

#[test]
fn cookie_header_pieces() {
    assert_eq!(
        parse_cookies(b"sid=abc; theme=dark").to_pairs(),
        vec![pair("sid", "abc"), pair("theme", "dark")]
    );
    assert_eq!(parse_cookies(b"flag").to_pairs(), vec![pair("flag", "")]);
    assert_eq!(parse_cookies(b"").to_pairs(), vec![pair("", "")]);
    assert_eq!(parse_cookies(b"a=1=2;b= 3 ").to_pairs(), vec![pair("a", "1"), pair("b", " 3 ")]);
    assert_eq!(parse_cookies(b" \ta\t =1;a=2").to_pairs(), vec![pair("a", "2")]);
    assert_eq!(parse_cookies(b"a=1;;b=2").to_pairs(), vec![pair("a", "1"), pair("", ""), pair("b", "2")]);
}

#[test]
fn splitting_and_trimming() {
    assert_eq!(split_bytes(b"", b';'), vec![b"".to_vec()]);
    assert_eq!(split_bytes(b";", b';'), vec![b"".to_vec(), b"".to_vec()]);
    assert_eq!(split_bytes(b"a;bc;", b';'), vec![b"a".to_vec(), b"bc".to_vec(), b"".to_vec()]);
    assert_eq!(trim_bytes(b"  a b\t"), b"a b");
    assert_eq!(trim_bytes(b" \t "), b"");
    assert_eq!(trim_bytes(b""), b"");
    assert_eq!(trim_bytes(b"\na "), b"\na");
}

#[test]
fn body_is_a_form_only_when_told_and_utf8() {
    let body = parse_body(b"user=a&comment=b".to_vec(), true);
    assert_eq!(form(&body).to_pairs(), vec![pair("user", "a"), pair("comment", "b")]);
    let body = parse_body(b"user=a&comment=b".to_vec(), false);
    assert_eq!(blob(&body), b"user=a&comment=b");
    let body = parse_body(b"user=\xff".to_vec(), true);
    assert_eq!(blob(&body), b"user=\xff");
    let body = parse_body(Vec::new(), true);
    assert!(form(&body).is_empty());
    assert!(body_as_url_encoded(&b"\xc3".to_vec()).is_none());
}

#[test]
fn form_values_are_decoded() {
    let body = parse_body(b"q=a+b%26c&q=%C3%A9&empty&=v".to_vec(), true);
    assert_eq!(
        form(&body).to_pairs(),
        vec![pair("q", "a b&c"), pair("q", "\u{e9}"), pair("empty", ""), pair("", "v")]
    );
}

#[test]
fn content_type_has_to_match_to_the_letter() {
    assert!(says_form(&headers(&[("Content-Type", "application/x-www-form-urlencoded")])));
    assert!(!says_form(&headers(&[(
        "Content-Type",
        "application/x-www-form-urlencoded; charset=utf-8"
    )])));
    assert!(!says_form(&headers(&[("Content-Type", "text/plain")])));
    assert!(!says_form(&headers(&[("Accept", "application/x-www-form-urlencoded")])));
    assert!(!says_form(&headers(&[
        ("Content-Type", "text/plain"),
        ("Content-Type", "application/x-www-form-urlencoded")
    ])));
}

#[test]
fn request_from_the_wire() {
    let parts = request_parts(
        "POST",
        "/path?x=1&y=2&x=3",
        &[
            ("Host", "origin.test"),
            ("Cookie", "sid=abc; theme=dark"),
            ("Accept", "text/html"),
            ("Content-Type", "application/x-www-form-urlencoded"),
            ("Accept", "*/*"),
        ],
    );
    let req = Request::from((parts, b"user=a&comment=b".to_vec(), true));
    assert!(req.is_https());
    assert_eq!(req.method(), "POST");
    assert_eq!(req.path(), "/path");
    assert_eq!(
        req.query_params().as_ref().unwrap().to_pairs(),
        vec![pair("x", "1"), pair("x", "3"), pair("y", "2")]
    );
    assert_eq!(
        req.headers().to_pairs(),
        vec![
            pair("host", "origin.test"),
            pair("accept", "text/html"),
            pair("accept", "*/*"),
            pair("content-type", "application/x-www-form-urlencoded"),
        ]
    );
    assert!(!req.headers().contains_key("cookie"));
    assert_eq!(req.header("ACCEPT"), Some(&vec![String::from("text/html"), String::from("*/*")]));
    assert_eq!(req.header("Host"), Some(&vec![String::from("origin.test")]));
    assert_eq!(req.header("cookie"), None);
    assert_eq!(req.header("h\u{f6}st"), None);
    assert_eq!(
        req.cookies().as_ref().unwrap().to_pairs(),
        vec![pair("sid", "abc"), pair("theme", "dark")]
    );
    assert_eq!(form(req.body()).to_pairs(), vec![pair("user", "a"), pair("comment", "b")]);
}

#[test]
fn request_without_query_cookies_or_form() {
    let parts = request_parts("GET", "/", &[("Host", "origin.test")]);
    let req = Request::from((parts, b"\x00\x01".to_vec(), false));
    assert!(!req.is_https());
    assert!(req.query_params().is_none());
    assert!(req.cookies().is_none());
    assert_eq!(blob(req.body()), b"\x00\x01");
    let parts = request_parts("GET", "/?", &[]);
    let req = Request::from((parts, Vec::new(), false));
    assert!(req.query_params().as_ref().unwrap().is_empty());
}

#[test]
fn response_from_the_wire() {
    let parts = ResponseParts {
        status: 404,
        version: Version::Http11,
        headers: headers(&[("Content-Type", "text/plain"), ("Set-Cookie", "a=1"), ("Set-Cookie", "b=2")]),
    };
    let resp = Response::from((parts, b"nothing here".to_vec()));
    assert_eq!(resp.code(), 404);
    assert_eq!(resp.message(), "Not Found");
    assert_eq!(
        resp.headers().to_pairs(),
        vec![pair("content-type", "text/plain"), pair("set-cookie", "a=1"), pair("set-cookie", "b=2")]
    );
    assert_eq!(blob(resp.body()), b"nothing here");
    assert_eq!(resp.header("Set-Cookie"), Some(&vec![String::from("a=1"), String::from("b=2")]));
    assert_eq!(resp.header("Location"), None);
    let ok = ResponseParts { status: 200, version: Version::Http11, headers: Headers::new() };
    assert_eq!(Response::from((ok, Vec::new())).message(), "OK");
    let odd = ResponseParts { status: 299, version: Version::Http11, headers: Headers::new() };
    assert_eq!(Response::from((odd, Vec::new())).message(), "");
    let out_of_range = ResponseParts { status: 42, version: Version::Http11, headers: Headers::new() };
    assert_eq!(Response::from((out_of_range, Vec::new())).message(), "");
}

#[test]
fn response_form_body() {
    let parts = ResponseParts {
        status: 200,
        version: Version::Http10,
        headers: headers(&[("Content-Type", "application/x-www-form-urlencoded")]),
    };
    let resp = Response::from((parts, b"a=1".to_vec()));
    assert_eq!(form(resp.body()).to_pairs(), vec![pair("a", "1")]);
}

#[test]
fn request_to_the_wire() {
    let parts = request_parts(
        "POST",
        "/path?x=1&y=2&x=3",
        &[
            ("Host", "origin.test"),
            ("Cookie", "sid=abc; theme=dark"),
            ("Content-Type", "application/x-www-form-urlencoded"),
        ],
    );
    let req = Request::from((parts, b"user=a+b&comment=%26".to_vec(), true));
    let (parts, body, is_https) = req.into().unwrap();
    assert!(is_https);
    assert_eq!(parts.method, "POST");
    assert_eq!(parts.version, Version::Http11);
    assert_eq!(parts.uri.scheme, None);
    assert_eq!(parts.uri.host, None);
    assert_eq!(parts.uri.port, None);
    assert_eq!(parts.uri.path, "/path");
    assert_eq!(parts.uri.query.as_deref(), Some("x=1&x=3&y=2"));
    assert_eq!(parts.headers.len(), 3);
    assert_eq!(parts.headers.name_at(0), "host");
    assert_eq!(parts.headers.value_at(0).as_bytes(), b"origin.test");
    assert_eq!(parts.headers.name_at(1), "content-type");
    assert_eq!(parts.headers.name_at(2), "cookie");
    assert_eq!(parts.headers.value_at(2).as_bytes(), b"sid=abc; theme=dark");
    assert_eq!(body, b"user=a+b&comment=%26");
}

#[test]
fn request_that_is_no_message() {
    let parts = request_parts("GET", "/", &[("Host", "origin.test")]);
    let mut req = Request::from((parts, Vec::new(), false));
    assert!(req.clone().into().is_some());
    let bad_method = Request::new(
        false,
        String::from("GE T"),
        String::from("/"),
        None,
        OrderedMultiMap::new(),
        None,
        SimpleBody::Blob(Vec::new()),
    );
    assert!(bad_method.into().is_none());
    let bad_target = Request::new(
        false,
        String::from("GET"),
        String::from("/a b"),
        None,
        OrderedMultiMap::new(),
        None,
        SimpleBody::Blob(Vec::new()),
    );
    assert!(bad_target.into().is_none());
    let bad_header = Request::new(
        false,
        String::from("GET"),
        String::from("/"),
        None,
        OrderedMultiMap::from_pairs(&vec![pair("x-a", "line\nbreak")]),
        None,
        SimpleBody::Blob(Vec::new()),
    );
    assert!(bad_header.into().is_none());
    let bad_name = Request::new(
        false,
        String::from("GET"),
        String::from("/"),
        None,
        OrderedMultiMap::from_pairs(&vec![pair("x a", "v")]),
        None,
        SimpleBody::Blob(Vec::new()),
    );
    assert!(bad_name.into().is_none());
    assert!(!req.set_query_param("q", String::from("v")));
    assert!(!req.set_form_param("q", String::from("v")));
}

#[test]
fn request_survives_the_wire() {
    let parts = request_parts(
        "POST",
        "/path?x=1&x=3&y=2",
        &[
            ("host", "origin.test"),
            ("accept", "text/html"),
            ("accept", "*/*"),
            ("content-type", "application/x-www-form-urlencoded"),
            ("cookie", "sid=abc; theme=dark"),
        ],
    );
    let req = Request::from((parts, b"user=a&comment=b".to_vec(), true));
    let back = Request::from(req.clone().into().unwrap());
    assert_eq!(back.is_https(), req.is_https());
    assert_eq!(back.method(), req.method());
    assert_eq!(back.path(), req.path());
    assert_eq!(
        back.query_params().as_ref().unwrap().to_pairs(),
        req.query_params().as_ref().unwrap().to_pairs()
    );
    assert_eq!(back.headers().to_pairs(), req.headers().to_pairs());
    assert_eq!(
        back.cookies().as_ref().unwrap().to_pairs(),
        req.cookies().as_ref().unwrap().to_pairs()
    );
    assert_eq!(form(back.body()).to_pairs(), form(req.body()).to_pairs());
}

#[test]
fn request_with_a_quote_in_its_query_survives_the_wire() {
    let parts = request_parts("GET", "/?q=%27", &[]);
    let req = Request::from((parts, Vec::new(), false));
    assert_eq!(req.query_params().as_ref().unwrap().to_pairs(), vec![pair("q", "'")]);
    let (parts, body, is_https) = req.into().unwrap();
    assert_eq!(parts.uri.query.as_deref(), Some("q='"));
    let back = Request::from((parts, body, is_https));
    assert_eq!(back.query_params().as_ref().unwrap().to_pairs(), vec![pair("q", "'")]);
}

#[test]
fn request_with_an_ampersand_in_its_query_does_not_survive_the_wire() {
    let parts = request_parts("GET", "/?q=a%26b", &[]);
    let req = Request::from((parts, Vec::new(), false));
    assert_eq!(req.query_params().as_ref().unwrap().to_pairs(), vec![pair("q", "a&b")]);
    let (parts, body, is_https) = req.into().unwrap();
    assert_eq!(parts.uri.query.as_deref(), Some("q=a&b"));
    let back = Request::from((parts, body, is_https));
    assert_eq!(
        back.query_params().as_ref().unwrap().to_pairs(),
        vec![pair("q", "a"), pair("b", "")]
    );
}

#[test]
fn cookies_survive_the_wire_unless_they_hold_a_separator() {
    let parts = request_parts("GET", "/", &[("cookie", "a=1; b=x y; c=")]);
    let req = Request::from((parts, Vec::new(), false));
    let cookies = req.cookies().as_ref().unwrap().to_pairs();
    assert_eq!(cookies, vec![pair("a", "1"), pair("b", "x y"), pair("c", "")]);
    let back = Request::from(req.into().unwrap());
    assert_eq!(back.cookies().as_ref().unwrap().to_pairs(), cookies);
    let mut odd = rusty_proxy::dto::cookies::Cookies::new();
    odd.insert(String::from("a"), String::from("1;2"));
    let req = Request::new(
        false,
        String::from("GET"),
        String::from("/"),
        None,
        OrderedMultiMap::new(),
        Some(odd),
        SimpleBody::Blob(Vec::new()),
    );
    let back = Request::from(req.into().unwrap());
    assert_eq!(
        back.cookies().as_ref().unwrap().to_pairs(),
        vec![pair("a", "1"), pair("2", "")]
    );
}

#[test]
fn targets_and_joins() {
    assert_eq!(join_pairs(&vec![], "&"), "");
    assert_eq!(join_pairs(&vec![pair("a", "1")], "&"), "a=1");
    assert_eq!(join_pairs(&vec![pair("a", "1"), pair("b", ""), pair("", "c")], "; "), "a=1; b=; =c");
    assert_eq!(request_target(&String::from("/p"), &None), "/p");
    assert_eq!(request_target(&String::from("/p"), &Some(OrderedMultiMap::new())), "/p?");
    let map = OrderedMultiMap::from_pairs(&vec![pair("a", "1"), pair("b", "2"), pair("a", "3")]);
    assert_eq!(request_target(&String::from("/p"), &Some(map)), "/p?a=1&a=3&b=2");
}

#[test]
fn header_map_groups_by_name() {
    let map = headers_to_map(&headers(&[("B", "1"), ("A", "2"), ("b", "3")]));
    assert_eq!(map.to_pairs(), vec![pair("b", "1"), pair("b", "3"), pair("a", "2")]);
}

#[test]
fn header_list() {
    let mut list = headers(&[("Host", "a"), ("X-One", "1"), ("host", "b")]);
    assert!(!list.append("bad name", HeaderValue::from_bytes(b"v").unwrap()));
    assert!(!list.append("", HeaderValue::from_bytes(b"v").unwrap()));
    assert_eq!(list.len(), 3);
    assert!(list.is_text());
    assert_eq!(list.get("host").unwrap().as_bytes(), b"a");
    assert!(list.get("Host").is_none());
    assert!(list.get("x-two").is_none());
    let copy = list.clone();
    list.remove("host");
    assert_eq!(list.len(), 1);
    assert_eq!(list.name_at(0), "x-one");
    assert_eq!(copy.len(), 3);
    list.push_field(String::from("x-bin"), HeaderValue::from_bytes(b"\xff").unwrap());
    assert!(!list.is_text());
    assert!(HeaderValue::from_bytes(b"a\x7fb").is_none());
    assert!(HeaderValue::from_bytes(b"a\rb").is_none());
    assert!(HeaderValue::from_bytes(b"a\tb").is_some());
}

#[test]
fn new_capture_has_no_id() {
    let req = Request::from((request_parts("GET", "/", &[]), Vec::new(), false));
    let resp = Response::from((
        ResponseParts { status: 200, version: Version::Http11, headers: Headers::new() },
        b"hello".to_vec(),
    ));
    let capture = Reqresp::new(req, resp);
    assert_eq!(capture.id, "");
    assert_eq!(capture.req.path(), "/");
    assert_eq!(capture.resp.code(), 200);
    let copy = capture.clone();
    assert_eq!(copy.id, "");
    assert_eq!(blob(copy.resp.body()), b"hello");
}
