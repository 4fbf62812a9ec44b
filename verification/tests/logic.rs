//! Tests of the pure request-pipeline components: target resolution, header
//! sanitising, Host injection, response-header conversion, body payloads,
//! the content-length reading and the lifecycle machine.

use http_pool::body::buffer_capacity;
use http_pool::body::parse_decimal;
use http_pool::body::payload_bytes;
use http_pool::body::RequestPayload;
use http_pool::body::ResponseBuffer;
use http_pool::executor::step;
use http_pool::executor::Event;
use http_pool::executor::Phase;
use http_pool::headers::convert_response_headers;
use http_pool::headers::sanitise_headers;
use http_pool::headers::set_host_header;
use http_pool::key::make_target;
use http_pool::key::resolve;
use http_pool::key::DestKey;
use http_pool::HttpError;

#[test]
fn resolve_derives_key_and_default_port() {
    let t = match resolve("GET", "http://example.com/some/path") {
        Ok(t) => t,
        Err(_) => panic!("expected a target"),
    };
    assert_eq!(t.key.host, "example.com");
    assert_eq!(t.key.port, 80);
    assert_eq!(t.authority, "example.com");
    assert_eq!(t.key.key_string(), "example.com:80");
}

#[test]
fn resolve_keeps_explicit_port() {
    let t = match resolve("POST", "http://example.com:8080/x?q=1") {
        Ok(t) => t,
        Err(_) => panic!("expected a target"),
    };
    assert_eq!(t.key.port, 8080);
    assert_eq!(t.authority, "example.com:8080");
    assert_eq!(t.key.key_string(), "example.com:8080");
}

#[test]
fn resolve_rejects_missing_host_before_any_io() {
    // A URL that parses but carries no host cannot be pooled: the failure
    // comes synchronously, before any connection work.
    assert!(matches!(
        resolve("GET", "/only/a/path"),
        Err(HttpError::MissingHost)
    ));
}

#[test]
fn resolve_rejects_unparseable_url() {
    assert!(matches!(
        resolve("GET", "http://exa mple.com/"),
        Err(HttpError::InvalidUrl(_))
    ));
}

#[test]
fn resolve_rejects_bad_method() {
    assert!(matches!(
        resolve("GE T", "http://example.com/"),
        Err(HttpError::InvalidMethod)
    ));
    assert!(matches!(
        resolve("", "http://example.com/"),
        Err(HttpError::InvalidMethod)
    ));
}

#[test]
fn make_target_defaults() {
    assert!(matches!(make_target(None, None, None), Err(HttpError::MissingHost)));
    assert!(matches!(
        make_target(Some("h".to_string()), Some(81), None),
        Err(HttpError::MissingHost)
    ));
    let t = match make_target(Some("h".to_string()), None, Some("h".to_string())) {
        Ok(t) => t,
        Err(_) => panic!("expected a target"),
    };
    assert_eq!(t.key.port, 80);
}

#[test]
fn dest_keys_compare_by_host_and_port() {
    let a = DestKey { host: "h".to_string(), port: 80 };
    let b = DestKey { host: "h".to_string(), port: 80 };
    let c = DestKey { host: "h".to_string(), port: 81 };
    let d = DestKey { host: "g".to_string(), port: 80 };
    assert!(a == b);
    assert!(a != c);
    assert!(a != d);
    assert!(a == a.dup());
}

#[test]
fn parse_decimal_exact_values() {
    assert_eq!(parse_decimal("0"), Some(0));
    assert_eq!(parse_decimal("123"), Some(123));
    assert_eq!(parse_decimal("007"), Some(7));
    assert_eq!(parse_decimal(""), None);
    assert_eq!(parse_decimal("12a"), None);
    assert_eq!(parse_decimal("-1"), None);
    assert_eq!(parse_decimal(" 1"), None);
}

#[test]
fn parse_decimal_limits() {
    assert_eq!(parse_decimal("18446744073709551615"), Some(usize::MAX));
    assert_eq!(parse_decimal("18446744073709551616"), None);
    assert_eq!(parse_decimal("99999999999999999999999"), None);
}

#[test]
fn payload_canonical_bytes() {
    assert_eq!(payload_bytes(RequestPayload::Bytes(vec![1, 2, 3])), vec![1, 2, 3]);
    assert_eq!(payload_bytes(RequestPayload::Text("abc".to_string())), b"abc".to_vec());
    assert_eq!(payload_bytes(RequestPayload::Empty), Vec::<u8>::new());
}

#[test]
fn buffer_concatenates_frames() {
    let mut b = ResponseBuffer::new(3);
    assert_eq!(b.len(), 0);
    b.append(&[1]);
    b.append(&[2, 3]);
    b.append(&[]);
    assert_eq!(b.into_bytes(), vec![1, 2, 3]);
}

#[test]
fn sanitise_drops_invalid_pairs_and_canonicalises() {
    let raw = vec![
        ("X-Test".to_string(), "abc".to_string()),
        ("Bad Name".to_string(), "v".to_string()),
        ("Ok".to_string(), "bad\nvalue".to_string()),
        ("".to_string(), "v".to_string()),
        ("Second".to_string(), "w".to_string()),
    ];
    let clean = sanitise_headers(&raw);
    assert_eq!(
        clean,
        vec![
            ("x-test".to_string(), "abc".to_string()),
            ("second".to_string(), "w".to_string()),
        ]
    );
}

#[test]
fn host_header_is_overwritten() {
    let mut hs = vec![
        ("host".to_string(), "spoof".to_string()),
        ("a".to_string(), "b".to_string()),
    ];
    set_host_header(&mut hs, &"example.com:81".to_string());
    assert_eq!(
        hs,
        vec![
            ("a".to_string(), "b".to_string()),
            ("host".to_string(), "example.com:81".to_string()),
        ]
    );
}

#[test]
fn host_header_is_added_when_absent() {
    let mut hs: Vec<(String, String)> = Vec::new();
    set_host_header(&mut hs, &"example.com".to_string());
    assert_eq!(hs, vec![("host".to_string(), "example.com".to_string())]);
}

#[test]
fn response_headers_are_lowercased() {
    let raw = vec![("X-Test".to_string(), b"abc".to_vec())];
    let h = match convert_response_headers(&raw) {
        Ok(h) => h,
        Err(_) => panic!("expected a table"),
    };
    assert_eq!(h.get(&"x-test".to_string()), Some("abc".to_string()));
    assert_eq!(h.get(&"X-Test".to_string()), None);
    assert_eq!(h.get(&"absent".to_string()), None);
}

#[test]
fn response_headers_last_occurrence_wins() {
    let raw = vec![
        ("A".to_string(), b"1".to_vec()),
        ("a".to_string(), b"2".to_vec()),
    ];
    let h = match convert_response_headers(&raw) {
        Ok(h) => h,
        Err(_) => panic!("expected a table"),
    };
    assert_eq!(h.get(&"a".to_string()), Some("2".to_string()));
}

#[test]
fn response_headers_reject_non_utf8() {
    let raw = vec![("A".to_string(), vec![0xff, 0xfe])];
    assert!(matches!(
        convert_response_headers(&raw),
        Err(HttpError::NonUtf8HeaderValue)
    ));
}

#[test]
fn capacity_comes_from_content_length() {
    let h = convert_response_headers(&vec![("Content-Length".to_string(), b"5".to_vec())])
        .unwrap_or_else(|_| panic!("expected a table"));
    assert_eq!(buffer_capacity(&h), 5);

    let none = convert_response_headers(&Vec::new()).unwrap_or_else(|_| panic!("expected a table"));
    assert_eq!(buffer_capacity(&none), 0);

    let bad = convert_response_headers(&vec![("Content-Length".to_string(), b"x5".to_vec())])
        .unwrap_or_else(|_| panic!("expected a table"));
    assert_eq!(buffer_capacity(&bad), 0);
}

#[test]
fn error_messages() {
    assert_eq!(HttpError::MissingHost.message(), "Missing host in URL");
    assert_eq!(HttpError::InvalidMethod.message(), "Unrecognised HTTP method");
    assert_eq!(HttpError::Connect("boom".to_string()).message(), "boom");
}

#[test]
fn machine_happy_path_delivers_once() {
    let (p, d) = step(Phase::Resolving, Event::ResolveOk);
    assert_eq!((p, d), (Phase::Acquiring, false));
    let (p, d) = step(p, Event::AcquireOk);
    assert_eq!((p, d), (Phase::Sending, false));
    let (p, d) = step(p, Event::SendOk);
    assert_eq!((p, d), (Phase::ReceivingHeaders, false));
    let (p, d) = step(p, Event::HeadersOk);
    assert_eq!((p, d), (Phase::ReceivingBody, false));
    let (p, d) = step(p, Event::FrameOk);
    assert_eq!((p, d), (Phase::ReceivingBody, false));
    let (p, d) = step(p, Event::BodyEnd);
    assert_eq!((p, d), (Phase::Completed, true));
    let (p, d) = step(p, Event::FrameFailed);
    assert_eq!((p, d), (Phase::Completed, false));
}

#[test]
fn machine_fails_before_connecting_on_bad_input() {
    // A resolve failure ends the request at once: the machine delivers the
    // failure and never enters the connection phases.
    let (p, d) = step(Phase::Resolving, Event::ResolveFailed);
    assert_eq!((p, d), (Phase::Failed, true));
    let (p, d) = step(p, Event::AcquireOk);
    assert_eq!((p, d), (Phase::Failed, false));
}

#[test]
fn machine_fails_from_every_phase() {
    assert_eq!(step(Phase::Acquiring, Event::AcquireFailed), (Phase::Failed, true));
    assert_eq!(step(Phase::Sending, Event::SendFailed), (Phase::Failed, true));
    assert_eq!(step(Phase::ReceivingHeaders, Event::HeadersFailed), (Phase::Failed, true));
    assert_eq!(step(Phase::ReceivingBody, Event::FrameFailed), (Phase::Failed, true));
}

#[test]
fn prepared_request_carries_key_headers_and_body() {
    let plan = match http_pool::executor::prepare_request(
        "POST",
        "http://example.com:8080/path",
        &vec![
            ("X-Test".to_string(), "abc".to_string()),
            ("host".to_string(), "spoof".to_string()),
            ("Bad Name".to_string(), "v".to_string()),
        ],
        RequestPayload::Bytes(vec![1, 2, 3]),
    ) {
        Ok(p) => p,
        Err(_) => panic!("expected a plan"),
    };
    assert_eq!(plan.key.key_string(), "example.com:8080");
    assert_eq!(plan.authority, "example.com:8080");
    assert_eq!(
        plan.headers,
        vec![
            ("x-test".to_string(), "abc".to_string()),
            ("host".to_string(), "example.com:8080".to_string()),
        ]
    );
    assert_eq!(plan.body, vec![1, 2, 3]);
    assert!(matches!(
        http_pool::executor::prepare_request("GET", "/nohost", &Vec::new(), RequestPayload::Empty),
        Err(HttpError::MissingHost)
    ));
}
