use http_bridge::error::RequestError;
use http_bridge::method::parse_method;
use http_bridge::request::{build_request, prepare_request, MAX_REQUEST_HEADERS};
use http_bridge::response::{build_response, finish_exchange, header_text, status_text, RawResponse};

fn pairs(items: &[(&str, &str)]) -> Vec<(String, String)> {
    items.iter().map(|(k, v)| (k.to_string(), v.to_string())).collect()
}

fn lookup<'a>(headers: &'a [(String, String)], name: &str) -> Option<&'a str> {
    headers.iter().find(|(k, _)| k == name).map(|(_, v)| v.as_str())
}

#[test]
fn standard_methods_parse() {
    for m in ["GET", "POST", "PUT", "DELETE", "PATCH", "HEAD", "OPTIONS"] {
        let parsed = parse_method(m).unwrap();
        assert_eq!(parsed.as_str(), m);
    }
}

#[test]
fn extension_methods_parse() {
    assert_eq!(parse_method("PURGE").unwrap().as_str(), "PURGE");
    assert_eq!(parse_method("get").unwrap().as_str(), "get");
    assert_eq!(parse_method("X-CUSTOM_METHOD.1~").unwrap().as_str(), "X-CUSTOM_METHOD.1~");
}

#[test]
fn non_token_methods_are_rejected() {
    for m in ["", "G ET", "GET\n", "\tPOST", "GÉT", "GET(", "DEL\u{7f}"] {
        match parse_method(m) {
            Err(RequestError::InvalidMethod(msg)) => assert_eq!(msg, "invalid HTTP method"),
            other => panic!("{:?} gave {:?}", m, other.map(|x| x.to_string())),
        }
    }
}

#[test]
fn invalid_method_stops_before_building() {
    let r = prepare_request("BAD METHOD", "http://example.test/".to_string(), Vec::new(), None);
    match r {
        Err(e) => {
            assert!(matches!(e, RequestError::InvalidMethod(_)));
            assert_eq!(e.message(), "invalid HTTP method");
        }
        Ok(_) => panic!("accepted an invalid method"),
    }
}

#[test]
fn prepared_request_keeps_url_body_and_headers() {
    let p = prepare_request(
        "POST",
        "http://example.test/echo".to_string(),
        pairs(&[("Content-Type", "text/plain"), ("X-Trace", "a1")]),
        Some("hello".to_string()),
    )
    .unwrap();
    assert_eq!(p.method, reqwest::Method::POST);
    assert_eq!(p.url, "http://example.test/echo");
    assert_eq!(p.body.as_deref(), Some("hello"));
    assert_eq!(p.headers.len(), 2);
    assert_eq!(lookup(&p.headers, "Content-Type"), Some("text/plain"));
    assert_eq!(lookup(&p.headers, "X-Trace"), Some("a1"));
}

#[test]
fn repeated_request_header_last_value_wins() {
    let p = prepare_request(
        "GET",
        "http://example.test/".to_string(),
        pairs(&[("X-A", "1"), ("X-B", "2"), ("X-A", "3")]),
        None,
    )
    .unwrap();
    assert_eq!(p.headers.len(), 2);
    assert_eq!(lookup(&p.headers, "X-A"), Some("3"));
    assert_eq!(lookup(&p.headers, "X-B"), Some("2"));
}

#[test]
fn absent_body_differs_from_empty_body() {
    let client = reqwest::Client::new();
    let none = prepare_request("POST", "http://example.test/".to_string(), Vec::new(), None).unwrap();
    let empty = prepare_request(
        "POST",
        "http://example.test/".to_string(),
        Vec::new(),
        Some(String::new()),
    )
    .unwrap();
    assert!(none.body.is_none());
    assert_eq!(empty.body.as_deref(), Some(""));
    let sent_none = build_request(&client, none).build().unwrap();
    let sent_empty = build_request(&client, empty).build().unwrap();
    assert!(sent_none.body().is_none());
    let b = sent_empty.body().unwrap();
    assert_eq!(b.as_bytes(), Some(&b""[..]));
}

#[test]
fn built_request_carries_method_url_and_headers() {
    let client = reqwest::Client::new();
    let p = prepare_request(
        "PATCH",
        "http://example.test/items/7".to_string(),
        pairs(&[("Content-Type", "text/plain"), ("X-Token", "abc")]),
        Some("hello".to_string()),
    )
    .unwrap();
    let req = build_request(&client, p).build().unwrap();
    assert_eq!(req.method(), reqwest::Method::PATCH);
    assert_eq!(req.url().as_str(), "http://example.test/items/7");
    assert_eq!(req.headers().get("content-type").unwrap(), "text/plain");
    assert_eq!(req.headers().get("x-token").unwrap(), "abc");
    assert_eq!(req.body().unwrap().as_bytes(), Some(&b"hello"[..]));
}

#[test]
fn not_found_scenario() {
    let payload = b"no such page".to_vec();
    let raw = RawResponse { status: 404, headers: Vec::new(), body: payload.clone() };
    let r = build_response(raw, 12);
    assert_eq!(r.status, 404);
    assert_eq!(r.status_text, "Not Found");
    assert_eq!(r.body, "no such page");
    assert_eq!(r.size, payload.len() as u64);
    assert_eq!(r.time, 12);
}

#[test]
fn echo_scenario() {
    let p = prepare_request(
        "POST",
        "http://example.test/echo".to_string(),
        pairs(&[("Content-Type", "text/plain")]),
        Some("hello".to_string()),
    )
    .unwrap();
    let echoed = p.body.clone().unwrap().into_bytes();
    let raw = RawResponse {
        status: 200,
        headers: vec![
            ("content-type".to_string(), b"text/plain".to_vec()),
            ("content-length".to_string(), b"5".to_vec()),
        ],
        body: echoed,
    };
    let r = finish_exchange(Ok(raw), 3).unwrap();
    assert_eq!(r.status, 200);
    assert_eq!(r.status_text, "OK");
    assert_eq!(r.body, "hello");
    assert_eq!(r.size, 5);
    assert_eq!(lookup(&r.headers, "content-type"), Some("text/plain"));
    assert_eq!(lookup(&r.headers, "content-length"), Some("5"));
}

#[test]
fn size_counts_bytes_not_characters() {
    // a truncated three-byte sequence decodes to one replacement character
    let raw = RawResponse { status: 200, headers: Vec::new(), body: vec![b'a', 0xe2, 0x82] };
    let r = build_response(raw, 0);
    assert_eq!(r.body, "a\u{FFFD}");
    assert_eq!(r.body.chars().count(), 2);
    assert_eq!(r.size, 3);
}

#[test]
fn size_of_multibyte_text() {
    let raw = RawResponse { status: 200, headers: Vec::new(), body: "héllo €".as_bytes().to_vec() };
    let r = build_response(raw, 0);
    assert_eq!(r.body, "héllo €");
    assert_eq!(r.size, 10);
}

#[test]
fn invalid_bytes_become_replacement_markers() {
    let raw = RawResponse { status: 200, headers: Vec::new(), body: vec![0xff, b'o', b'k', 0xfe] };
    let r = build_response(raw, 0);
    assert_eq!(r.body, "\u{FFFD}ok\u{FFFD}");
    assert_eq!(r.size, 4);
}

#[test]
fn empty_payload() {
    let raw = RawResponse { status: 204, headers: Vec::new(), body: Vec::new() };
    let r = build_response(raw, 0);
    assert_eq!(r.status_text, "No Content");
    assert_eq!(r.body, "");
    assert_eq!(r.size, 0);
}

#[test]
fn code_without_reason_has_empty_text() {
    let raw = RawResponse { status: 299, headers: Vec::new(), body: Vec::new() };
    assert_eq!(build_response(raw, 0).status_text, "");
    let raw = RawResponse { status: 999, headers: Vec::new(), body: Vec::new() };
    assert_eq!(build_response(raw, 0).status_text, "");
}

#[test]
fn repeated_response_header_last_value_wins() {
    let raw = RawResponse {
        status: 200,
        headers: vec![
            ("set-cookie".to_string(), b"a=1".to_vec()),
            ("server".to_string(), b"test".to_vec()),
            ("set-cookie".to_string(), b"b=2".to_vec()),
        ],
        body: Vec::new(),
    };
    let r = build_response(raw, 0);
    assert_eq!(r.headers.len(), 2);
    assert_eq!(lookup(&r.headers, "set-cookie"), Some("b=2"));
    assert_eq!(lookup(&r.headers, "server"), Some("test"));
}

#[test]
fn non_text_header_value_becomes_empty() {
    let raw = RawResponse {
        status: 200,
        headers: vec![
            ("x-binary".to_string(), vec![b'a', 0xc3, 0xa9]),
            ("x-tabbed".to_string(), b"a\tb".to_vec()),
        ],
        body: Vec::new(),
    };
    let r = build_response(raw, 0);
    assert_eq!(lookup(&r.headers, "x-binary"), Some(""));
    assert_eq!(lookup(&r.headers, "x-tabbed"), Some("a\tb"));
}

#[test]
fn header_text_of_values() {
    assert_eq!(header_text(&b"text/html; charset=utf-8".to_vec()), "text/html; charset=utf-8");
    assert_eq!(header_text(&vec![0x7f]), "");
    assert_eq!(header_text(&vec![b'x', 0x0a]), "");
    assert_eq!(header_text(&Vec::new()), "");
}

#[test]
fn elapsed_time_is_recorded() {
    let raw = RawResponse { status: 200, headers: Vec::new(), body: Vec::new() };
    assert_eq!(build_response(raw, 250).time, 250);
    let raw = RawResponse { status: 200, headers: Vec::new(), body: Vec::new() };
    assert_eq!(build_response(raw, u128::MAX).time, u64::MAX);
}

#[test]
fn transport_failure_gives_no_response() {
    let r = finish_exchange(Err("error sending request: connection refused".to_string()), 40);
    match r {
        Err(RequestError::Transport(msg)) => {
            assert_eq!(msg, "error sending request: connection refused")
        }
        _ => panic!("expected a transport error"),
    }
}

#[test]
fn error_message_is_carried_text() {
    assert_eq!(RequestError::Transport("timed out".to_string()).message(), "timed out");
    assert_eq!(RequestError::InvalidMethod("bad".to_string()).message(), "bad");
}

#[test]
fn status_texts() {
    assert_eq!(status_text(200), "OK");
    assert_eq!(status_text(404), "Not Found");
    assert_eq!(status_text(418), "I'm a teapot");
    assert_eq!(status_text(299), "");
    assert_eq!(status_text(42), "");
}

#[test]
fn built_request_keeps_extension_method_and_lowers_names() {
    let client = reqwest::Client::new();
    let p = prepare_request(
        "PROPFIND",
        "http://example.test/dav".to_string(),
        pairs(&[("X-Mixed-Case", "Value With Spaces")]),
        None,
    )
    .unwrap();
    let req = build_request(&client, p).build().unwrap();
    assert_eq!(req.method().as_str(), "PROPFIND");
    let names: Vec<&str> = req.headers().keys().map(|k| k.as_str()).collect();
    assert_eq!(names, vec!["x-mixed-case"]);
    assert_eq!(req.headers().get("x-mixed-case").unwrap().as_bytes(), b"Value With Spaces");
    assert!(req.body().is_none());
}

#[test]
fn credentials_in_url_add_one_header() {
    let client = reqwest::Client::new();
    let p = prepare_request(
        "GET",
        "http://user:pw@example.test/".to_string(),
        pairs(&[("X-A", "1")]),
        None,
    )
    .unwrap();
    let req = build_request(&client, p).build().unwrap();
    assert_eq!(req.headers().len(), 2);
    assert!(req.headers().contains_key("authorization"));
    assert_eq!(req.headers().get("x-a").unwrap(), "1");
}

#[test]
fn largest_header_count_builds() {
    let client = reqwest::Client::new();
    let headers: Vec<(String, String)> =
        (0..MAX_REQUEST_HEADERS).map(|i| (format!("x-h{}", i), i.to_string())).collect();
    let p = prepare_request("GET", "http://example.test/".to_string(), headers, None).unwrap();
    assert_eq!(p.headers.len(), MAX_REQUEST_HEADERS);
    let req = build_request(&client, p).build().unwrap();
    assert_eq!(req.headers().len(), MAX_REQUEST_HEADERS);
    assert_eq!(req.headers().get("x-h4095").unwrap(), "4095");
}

#[test]
fn invalid_header_name_is_left_to_the_transport() {
    let client = reqwest::Client::new();
    let p = prepare_request(
        "GET",
        "http://example.test/".to_string(),
        pairs(&[("Bad Name", "1")]),
        None,
    )
    .unwrap();
    assert!(build_request(&client, p).build().is_err());
}

#[test]
fn names_differing_in_case_are_both_attached() {
    let client = reqwest::Client::new();
    let p = prepare_request(
        "GET",
        "http://example.test/".to_string(),
        pairs(&[("X-A", "1"), ("B", "2"), ("x-a", "3")]),
        None,
    )
    .unwrap();
    assert_eq!(p.headers.len(), 3);
    let req = build_request(&client, p).build().unwrap();
    let values: Vec<&[u8]> = req.headers().get_all("x-a").iter().map(|v| v.as_bytes()).collect();
    assert_eq!(values, vec![&b"1"[..], &b"3"[..]]);
    assert_eq!(req.headers().get("b").unwrap(), "2");
    assert_eq!(req.headers().len(), 3);
}

#[test]
fn invalid_header_value_is_left_to_the_transport() {
    let client = reqwest::Client::new();
    let p = prepare_request(
        "GET",
        "http://example.test/".to_string(),
        pairs(&[("X-A", "line\nbreak")]),
        None,
    )
    .unwrap();
    assert!(build_request(&client, p).build().is_err());
}

#[test]
fn url_without_host_is_left_to_the_transport() {
    let client = reqwest::Client::new();
    let p = prepare_request("GET", "not a url".to_string(), Vec::new(), None).unwrap();
    assert!(build_request(&client, p).build().is_err());
}
