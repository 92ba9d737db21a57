use http::header::{HeaderMap, HeaderName, HeaderValue};
use http_body_util::BodyExt;
use unikraft_sandbox::exchange::{
    begin_send, build_hyper_request, BodyEvent, HttpError, HttpRequest, HttpResponse, ParsedUrl,
    ReadStep, ResponseReader, MAX_CONCURRENT_REQUESTS, MAX_RESPONSE_BYTES, REQUEST_TIMEOUT_SECS,
};
use unikraft_sandbox::headers::{
    cap_response_headers, is_forbidden_request_header, FORBIDDEN_REQUEST_HEADERS,
    MAX_RESPONSE_HEADER_BYTES, MAX_RESPONSE_HEADER_COUNT,
};
use unikraft_sandbox::outside::RequestBody;

fn bytes_of(body: RequestBody) -> Vec<u8> {
    tokio::runtime::Builder::new_current_thread()
        .build()
        .unwrap()
        .block_on(async { body.collect().await.unwrap().to_bytes().to_vec() })
}

fn request(url: &str, method: &str, headers: &[(&str, &str)], body: Option<&str>) -> HttpRequest {
    HttpRequest {
        url: ParsedUrl::parse(url).unwrap(),
        method: method.to_string(),
        headers: headers
            .iter()
            .map(|(name, value)| (name.to_string(), value.to_string()))
            .collect(),
        body: HttpRequest::body_from_bytes(body.map(|text| text.as_bytes().to_vec())),
    }
}

fn message_of(built: Result<(hyper::Request<RequestBody>, bool), HttpError>) -> String {
    match built {
        Ok(_) => panic!("the request was built"),
        Err(error) => error.message(),
    }
}

#[test]
fn forbidden_headers_are_sorted() {
    let mut sorted = FORBIDDEN_REQUEST_HEADERS.to_vec();
    sorted.sort();
    assert_eq!(FORBIDDEN_REQUEST_HEADERS, sorted.as_slice());
}

#[test]
fn is_forbidden_is_case_insensitive() {
    assert!(is_forbidden_request_header("Host"));
    assert!(is_forbidden_request_header("HOST"));
    assert!(is_forbidden_request_header("Transfer-Encoding"));
    assert!(!is_forbidden_request_header("Content-Type"));
    assert!(!is_forbidden_request_header("Authorization"));
}

#[test]
fn every_listed_header_is_forbidden() {
    for name in FORBIDDEN_REQUEST_HEADERS {
        assert!(is_forbidden_request_header(name));
        assert!(is_forbidden_request_header(&name.to_ascii_uppercase()));
    }
    assert_eq!(FORBIDDEN_REQUEST_HEADERS.len(), 9);
    assert!(!is_forbidden_request_header(""));
    assert!(!is_forbidden_request_header("hosts"));
    assert!(!is_forbidden_request_header("hos"));
    // The Kelvin sign lowers to `k` in Unicode, but not in ASCII.
    assert!(!is_forbidden_request_header("\u{212a}eep-alive"));
}

#[test]
fn limits_have_their_values() {
    assert_eq!(MAX_RESPONSE_BYTES, 16_777_216);
    assert_eq!(MAX_RESPONSE_HEADER_COUNT, 128);
    assert_eq!(MAX_RESPONSE_HEADER_BYTES, 1_048_576);
    assert_eq!(MAX_CONCURRENT_REQUESTS, 16);
    assert_eq!(REQUEST_TIMEOUT_SECS, 30);
}

#[test]
fn body_holds_its_bytes() {
    assert_eq!(
        bytes_of(HttpRequest::body_from_bytes(Some(vec![1, 2, 3]))),
        vec![1, 2, 3]
    );
    assert!(bytes_of(HttpRequest::body_from_bytes(Some(Vec::new()))).is_empty());
    assert!(bytes_of(HttpRequest::body_from_bytes(None)).is_empty());
}

#[test]
fn url_is_taken_apart() {
    let url = ParsedUrl::parse("HTTPS://user@Example.com:8443/a/b?q=1#f").unwrap();
    assert_eq!(url.serialization, "https://user@example.com:8443/a/b?q=1#f");
    assert_eq!(url.scheme, "https");
    assert_eq!(url.authority, "user@example.com:8443");
    assert_eq!(url.path_and_query, "/a/b?q=1#f");
    assert!(ParsedUrl::parse("not a url").is_err());
}

#[test]
fn request_is_built_without_forbidden_headers() {
    let built = build_hyper_request(request(
        "https://example.com/p?q=1",
        "POST",
        &[
            ("X-One", "1"),
            ("Host", "evil.example"),
            ("x-two", "2"),
            ("X-ONE", "3"),
            ("Connection", "close"),
        ],
        Some("payload"),
    ));
    let (request, use_tls) = match built {
        Ok(built) => built,
        Err(error) => panic!("{}", error.message()),
    };
    assert!(use_tls);
    assert_eq!(request.method().as_str(), "POST");
    assert_eq!(request.uri().to_string(), "https://example.com/p?q=1");
    let listed: Vec<(String, String)> = request
        .headers()
        .iter()
        .map(|(name, value)| (name.to_string(), value.to_str().unwrap().to_string()))
        .collect();
    let expected: Vec<(String, String)> = [
        ("host", "example.com"),
        ("x-one", "1"),
        ("x-one", "3"),
        ("x-two", "2"),
    ]
    .iter()
    .map(|(name, value)| (name.to_string(), value.to_string()))
    .collect();
    assert_eq!(listed, expected);
    assert_eq!(bytes_of(request.into_body()), b"payload".to_vec());
}

#[test]
fn only_https_asks_for_tls() {
    for (url, tls, uri) in [
        ("http://example.com", false, "http://example.com/"),
        ("https://example.com", true, "https://example.com/"),
        ("ws://example.com/x", false, "http://example.com/x"),
    ] {
        let (request, use_tls) = build_hyper_request(request(url, "GET", &[], None))
            .ok()
            .unwrap();
        assert_eq!(use_tls, tls);
        assert_eq!(request.uri().to_string(), uri);
    }
}

#[test]
fn request_uri_has_a_path_and_no_fragment() {
    for (rest, shown) in [
        ("", "/"),
        ("#f", "/"),
        ("?q", "/?q"),
        ("?q#f?g", "/?q"),
        ("/a#f", "/a"),
        ("/a?", "/a?"),
        ("*", "*"),
    ] {
        let mut req = request("http://u@h:81/", "GET", &[], None);
        req.url.path_and_query = rest.to_string();
        let (request, _) = build_hyper_request(req).ok().unwrap();
        assert_eq!(request.uri().to_string(), format!("http://u@h:81{shown}"));
    }
}

#[test]
fn forbidden_headers_change_nothing() {
    let mut crowded = request("http://h/", "GET", &[("x-a", "1")], Some("b"));
    for _ in 0..30_000 {
        crowded.headers.push(("Upgrade".to_string(), "\n".to_string()));
    }
    crowded.headers.push(("x-b".to_string(), "2".to_string()));
    let plain = request("http://h/", "GET", &[("x-a", "1"), ("x-b", "2")], Some("b"));
    let (crowded, _) = build_hyper_request(crowded).ok().unwrap();
    let (plain, _) = build_hyper_request(plain).ok().unwrap();
    assert_eq!(crowded.method(), plain.method());
    assert_eq!(crowded.uri(), plain.uri());
    assert_eq!(crowded.headers(), plain.headers());
    assert_eq!(bytes_of(crowded.into_body()), bytes_of(plain.into_body()));
}

#[test]
fn bad_method_is_refused_first() {
    let message = message_of(build_hyper_request(request(
        "unix:/run/foo.socket",
        "BAD METHOD",
        &[("bad name", "x")],
        None,
    )));
    let reported = http::Method::from_bytes(b"BAD METHOD").unwrap_err();
    assert_eq!(message, format!("invalid HTTP method: {reported}"));
    assert_eq!(
        message_of(build_hyper_request(request("http://h/", "", &[], None))),
        "invalid HTTP method: invalid HTTP method"
    );
}

#[test]
fn url_without_authority_makes_no_request() {
    assert_eq!(
        message_of(build_hyper_request(request(
            "unix:/run/foo.socket",
            "GET",
            &[("bad name", "x")],
            None
        ))),
        "failed to build request URI"
    );
}

#[test]
fn bad_headers_are_refused() {
    for header in [("bad name", "x"), ("", "x"), ("x", "a\nb"), ("x", "\u{7f}"), ("n\u{e9}", "x")] {
        assert_eq!(
            message_of(build_hyper_request(request("http://h/", "GET", &[header], None))),
            "failed to build request"
        );
    }
    // A forbidden header is dropped before it can be refused.
    assert!(build_hyper_request(request("http://h/", "GET", &[("Host", "a\nb")], None)).is_ok());
    for header in [("x", "tab\there"), ("x", "caf\u{e9}"), ("x", ""), ("!#$%&'*+-.^_`|~0aZ", "x")] {
        assert!(build_hyper_request(request("http://h/", "GET", &[header], None)).is_ok());
    }
}

#[test]
fn header_names_have_a_longest_length() {
    let longest = "a".repeat(65535);
    let longer = "a".repeat(65536);
    assert!(build_hyper_request(request("http://h/", "GET", &[(&longest, "x")], None)).is_ok());
    assert!(build_hyper_request(request("http://h/", "GET", &[(&longer, "x")], None)).is_err());
}

#[test]
fn thousands_of_headers_are_not_too_many() {
    let mut req = request("http://h/", "GET", &[], None);
    for i in 0..6553 {
        req.headers.push((format!("x-{i}"), "v".to_string()));
    }
    let (request, _) = build_hyper_request(req).ok().unwrap();
    assert_eq!(request.headers().len(), 6554);
}

#[test]
fn values_of_few_names_are_never_too_many() {
    let mut req = request("http://h/", "GET", &[], None);
    for i in 0..30_000 {
        req.headers.push((format!("x-{}", i % 2), "v".to_string()));
    }
    let (request, _) = build_hyper_request(req).ok().unwrap();
    assert_eq!(request.headers().len(), 30_001);
}

#[test]
fn names_can_be_too_many() {
    let mut req = request("http://h/", "GET", &[], None);
    for i in 0..24_576 {
        req.headers.push((format!("x-{i}"), "v".to_string()));
    }
    assert_eq!(message_of(build_hyper_request(req)), "failed to build request");
}

#[test]
fn sending_waits_as_long_as_configured() {
    let outgoing = begin_send(true, request("https://example.com/", "GET", &[], None))
        .ok()
        .unwrap();
    assert!(outgoing.use_tls);
    assert_eq!(outgoing.connect_timeout_secs, 30);
    assert_eq!(outgoing.first_byte_timeout_secs, 30);
    assert_eq!(outgoing.between_bytes_timeout_secs, 30);
}

#[test]
fn sending_can_be_switched_off() {
    match begin_send(false, request("https://example.com/", "BAD METHOD", &[], None)) {
        Err(error) => assert_eq!(
            error.message(),
            "outbound HTTP is unavailable: the `wasi-http` feature is disabled"
        ),
        Ok(_) => panic!("sent"),
    }
    match begin_send(true, request("https://example.com/", "BAD METHOD", &[], None)) {
        Err(error) => assert!(matches!(error, HttpError::InvalidMethod)),
        Ok(_) => panic!("sent"),
    }
}

#[test]
fn few_headers_are_all_kept() {
    let mut raw = HeaderMap::new();
    raw.append("x-a", HeaderValue::from_static("1"));
    raw.append("x-b", HeaderValue::from_static("2"));
    raw.append("X-A", HeaderValue::from_static("3"));
    raw.append("x-c", HeaderValue::from_bytes(b"caf\xc3\xa9").unwrap());
    let kept = cap_response_headers(&raw);
    assert_eq!(kept.len(), 3);
    assert_eq!(kept.get("x-a").map(String::as_str), Some("3"));
    assert_eq!(kept.get("x-b").map(String::as_str), Some("2"));
    assert_eq!(kept.get("x-c").map(String::as_str), Some(""));
    assert_eq!(kept.get("X-A"), None);
    assert!(cap_response_headers(&HeaderMap::new()).is_empty());
}

#[test]
fn header_count_is_capped() {
    let mut raw = HeaderMap::new();
    for i in 0..200 {
        raw.append(
            HeaderName::try_from(format!("x-{i}")).unwrap(),
            HeaderValue::from_static("v"),
        );
    }
    let kept = cap_response_headers(&raw);
    assert_eq!(kept.len(), 128);
    assert!(kept.get("x-127").is_some());
    assert!(kept.get("x-128").is_none());
}

#[test]
fn repeated_headers_count_as_one_name() {
    let mut raw = HeaderMap::new();
    for _ in 0..300 {
        raw.append("x-a", HeaderValue::from_static("1"));
    }
    raw.append("x-b", HeaderValue::from_static("2"));
    assert_eq!(cap_response_headers(&raw).len(), 2);
}

#[test]
fn every_name_is_kept_up_to_the_limit() {
    let mut raw = HeaderMap::new();
    for i in 0..128 {
        let name = HeaderName::try_from(format!("x-{i}")).unwrap();
        raw.append(name.clone(), HeaderValue::from_static("first"));
        raw.append(name, HeaderValue::from_static("second"));
    }
    let kept = cap_response_headers(&raw);
    assert_eq!(kept.len(), 128);
    assert_eq!(kept.get("x-126").map(String::as_str), Some("second"));
    // The last name fills the table, and what follows is not read.
    assert_eq!(kept.get("x-127").map(String::as_str), Some("first"));
}

#[test]
fn header_bytes_are_capped() {
    let half = "v".repeat(512 * 1024 - 3);
    let mut raw = HeaderMap::new();
    raw.append("x-a", HeaderValue::try_from(half.as_str()).unwrap());
    raw.append("x-b", HeaderValue::try_from(half.as_str()).unwrap());
    assert_eq!(cap_response_headers(&raw).len(), 2);
    raw.append("x", HeaderValue::from_static(""));
    raw.append("y", HeaderValue::from_static(""));
    assert_eq!(cap_response_headers(&raw).len(), 2);
}

#[test]
fn repeated_header_counts_its_bytes_each_time() {
    let half = "v".repeat(512 * 1024);
    let mut raw = HeaderMap::new();
    raw.append("x-a", HeaderValue::try_from(half.as_str()).unwrap());
    raw.append("x-a", HeaderValue::from_static("second"));
    raw.append("x-a", HeaderValue::try_from(half.as_str()).unwrap());
    raw.append("x-b", HeaderValue::from_static("late"));
    let kept = cap_response_headers(&raw);
    assert_eq!(kept.len(), 1);
    assert_eq!(kept.get("x-a").map(String::as_str), Some("second"));
}

fn read(events: Vec<BodyEvent>) -> Result<HttpResponse, String> {
    let mut raw = HeaderMap::new();
    raw.append("x-a", HeaderValue::from_static("1"));
    let mut reader = ResponseReader::new(201, &raw);
    for event in events {
        match reader.feed(event) {
            ReadStep::Continue(next) => reader = next,
            ReadStep::Finished(response) => return Ok(response),
            ReadStep::Failed(error) => return Err(error.message()),
        }
    }
    Err("still reading".to_string())
}

#[test]
fn body_is_its_frames() {
    let response = read(vec![
        BodyEvent::Data(b"ab".to_vec()),
        BodyEvent::NoData,
        BodyEvent::Data(b"c".to_vec()),
        BodyEvent::End,
    ])
    .unwrap();
    assert_eq!(response.status, 201);
    assert_eq!(response.headers.get("x-a").map(String::as_str), Some("1"));
    assert_eq!(response.body, b"abc".to_vec());
}

#[test]
fn body_is_capped() {
    let full = read(vec![
        BodyEvent::Data(vec![7; MAX_RESPONSE_BYTES]),
        BodyEvent::Data(Vec::new()),
        BodyEvent::End,
    ])
    .unwrap();
    assert_eq!(full.body.len(), MAX_RESPONSE_BYTES);
    assert_eq!(
        read(vec![
            BodyEvent::Data(vec![7; MAX_RESPONSE_BYTES]),
            BodyEvent::Data(vec![7]),
            BodyEvent::End,
        ])
        .err(),
        Some("response body exceeded 16 MiB limit".to_string())
    );
}

#[test]
fn body_can_fail() {
    assert_eq!(
        read(vec![BodyEvent::Data(vec![1]), BodyEvent::TimedOut]).err(),
        Some("response body read timed out".to_string())
    );
    assert_eq!(
        read(vec![BodyEvent::Failed("reset".to_string())]).err(),
        Some("response body read error: reset".to_string())
    );
    assert_eq!(
        HttpError::SendFailed("DnsTimeout".to_string()).message(),
        "HTTP request failed: DnsTimeout"
    );
}
