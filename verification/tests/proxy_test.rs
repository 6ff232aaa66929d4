use switchboard::proxy::accepts_event;
use switchboard::config::Config;
use switchboard::proxy::{
    body_for_log, buffered_headers, copy_request_headers, decimal_value, find_name,
    forward_request_headers, headers_for_log, hop_by_hop, insert_header, keep_response_headers,
    proxy_step, remove_header, response_is_event_stream, stream_headers, BodyLog, HeaderField,
    ProxyAction, ProxyEvent, ProxyState, STATUS_BAD_GATEWAY,
    STATUS_BAD_REQUEST, STATUS_INTERNAL_SERVER_ERROR,
};

fn h(name: &str, value: &str) -> HeaderField {
    HeaderField { name: name.to_string(), value: value.as_bytes().to_vec() }
}

fn pairs(hs: &[HeaderField]) -> Vec<(String, String)> {
    hs.iter()
        .map(|x| (x.name.clone(), String::from_utf8_lossy(&x.value).into_owned()))
        .collect()
}

fn p(name: &str, value: &str) -> (String, String) {
    (name.to_string(), value.to_string())
}

fn config_with_key(key: &str) -> Config {
    let mut config = Config::default();
    config.anthropic_api_key = key.to_string();
    config
}

#[test]
fn test_header_map_operations() {
    let mut hs = vec![h("a", "1"), h("b", "2")];
    assert_eq!(find_name(&hs, "b"), Some(1));
    assert_eq!(find_name(&hs, "c"), None);
    insert_header(&mut hs, "a".to_string(), b"3".to_vec());
    insert_header(&mut hs, "c".to_string(), b"4".to_vec());
    assert_eq!(pairs(&hs), vec![p("a", "3"), p("b", "2"), p("c", "4")]);
    remove_header(&mut hs, "b");
    remove_header(&mut hs, "zzz");
    assert_eq!(pairs(&hs), vec![p("a", "3"), p("c", "4")]);
}

#[test]
fn test_hop_by_hop_headers() {
    for name in [
        "host",
        "connection",
        "proxy-authenticate",
        "proxy-authorization",
        "te",
        "trailer",
        "transfer-encoding",
        "upgrade",
    ] {
        assert!(hop_by_hop(name), "{} is hop-by-hop", name);
    }
    assert!(!hop_by_hop("content-type"));
    assert!(!hop_by_hop("content-length"));
}

#[test]
fn test_forwarded_request_headers() {
    let incoming = vec![
        h("host", "localhost:8080"),
        h("content-type", "application/json"),
        h("authorization", "Bearer client-token"),
        h("connection", "keep-alive"),
        h("anthropic-version", "2023-06-01"),
        h("x-api-key", "client-key"),
    ];
    assert_eq!(
        pairs(&copy_request_headers(&incoming)),
        vec![
            p("content-type", "application/json"),
            p("authorization", "Bearer client-token"),
            p("anthropic-version", "2023-06-01"),
            p("x-api-key", "client-key"),
        ]
    );
    let out = forward_request_headers(&incoming, Some("api.anthropic.com"), "server-key")
        .expect("valid key");
    assert_eq!(
        pairs(&out),
        vec![
            p("content-type", "application/json"),
            p("host", "api.anthropic.com"),
            p("anthropic-version", "2023-06-01"),
            p("x-api-key", "server-key"),
        ]
    );
}

#[test]
fn test_forwarded_headers_without_host_and_bad_key() {
    let incoming = vec![h("accept", "*/*")];
    let out = forward_request_headers(&incoming, None, "k").unwrap();
    assert_eq!(pairs(&out), vec![p("accept", "*/*"), p("x-api-key", "k")]);
    assert!(forward_request_headers(&incoming, None, "bad\nkey").is_none());
    let out = forward_request_headers(&incoming, Some("bad\u{7f}host"), "k").unwrap();
    assert_eq!(pairs(&out), vec![p("accept", "*/*"), p("x-api-key", "k")]);
}

#[test]
fn test_event_stream_detection() {
    assert!(response_is_event_stream(&vec![h("content-type", "text/event-stream; charset=utf-8")]));
    assert!(!response_is_event_stream(&vec![h("content-type", "application/json")]));
    assert!(!response_is_event_stream(&vec![h("x-other", "text/event-stream")]));
    assert!(!response_is_event_stream(&vec![
        h("content-type", "application/json"),
        h("content-type", "text/event-stream"),
    ]));
    let mut not_ascii = h("content-type", "text/event-stream");
    not_ascii.value.push(0xC3);
    assert!(!response_is_event_stream(&vec![not_ascii]));
}

#[test]
fn test_response_headers_kept() {
    let upstream = vec![
        h("content-type", "application/json"),
        h("content-length", "12"),
        h("connection", "close"),
        h("set-cookie", "a=1"),
        h("set-cookie", "b=2"),
        h("transfer-encoding", "chunked"),
    ];
    assert_eq!(
        pairs(&keep_response_headers(&upstream, false)),
        vec![
            p("content-type", "application/json"),
            p("content-length", "12"),
            p("set-cookie", "a=1"),
            p("set-cookie", "b=2"),
        ]
    );
    assert_eq!(
        pairs(&keep_response_headers(&upstream, true)),
        vec![p("content-type", "application/json"), p("set-cookie", "a=1"), p("set-cookie", "b=2")]
    );
    assert_eq!(
        pairs(&buffered_headers(&upstream, 345)),
        vec![
            p("content-type", "application/json"),
            p("content-length", "12"),
            p("set-cookie", "a=1"),
            p("set-cookie", "b=2"),
            p("content-length", "345"),
        ]
    );
}

#[test]
fn test_stream_headers_add_content_type() {
    let upstream = vec![h("content-length", "99"), h("cache-control", "no-cache")];
    assert_eq!(
        pairs(&stream_headers(&upstream)),
        vec![p("cache-control", "no-cache"), p("content-type", "text/event-stream")]
    );
    let typed = vec![h("content-type", "text/event-stream")];
    assert_eq!(pairs(&stream_headers(&typed)), vec![p("content-type", "text/event-stream")]);
}

#[test]
fn test_decimal_value() {
    assert_eq!(decimal_value(0), b"0".to_vec());
    assert_eq!(decimal_value(7), b"7".to_vec());
    assert_eq!(decimal_value(10240), b"10240".to_vec());
    assert_eq!(decimal_value(usize::MAX), usize::MAX.to_string().into_bytes());
}

#[test]
fn test_proxy_step_buffered_flow() {
    let config = config_with_key("server-key");
    let request_headers = vec![h("host", "localhost"), h("authorization", "Bearer t")];

    let (state, action) = proxy_step(
        &config,
        &request_headers,
        ProxyState::Received,
        ProxyEvent::Arrived { path_and_query: Some("/v1/messages?beta=true".to_string()) },
    );
    assert!(matches!(action, ProxyAction::ReadRequestBody));
    match &state {
        ProxyState::AwaitingBody { url, host } => {
            assert_eq!(url, "https://api.anthropic.com/v1/messages?beta=true");
            assert_eq!(host.as_deref(), Some("api.anthropic.com"));
        }
        _ => panic!("expected AwaitingBody"),
    }

    let (state, action) = proxy_step(&config, &request_headers, state, ProxyEvent::BodyRead);
    assert!(matches!(state, ProxyState::AwaitingUpstream));
    match &action {
        ProxyAction::Forward { url, headers } => {
            assert_eq!(url, "https://api.anthropic.com/v1/messages?beta=true");
            assert_eq!(
                pairs(headers),
                vec![p("x-api-key", "server-key"), p("host", "api.anthropic.com")]
            );
        }
        _ => panic!("expected Forward"),
    }

    let (state, action) = proxy_step(
        &config,
        &request_headers,
        state,
        ProxyEvent::UpstreamReplied {
            status: 200,
            headers: vec![h("content-type", "application/json"), h("connection", "close")],
        },
    );
    assert!(matches!(action, ProxyAction::ReadResponseBody));
    let (state, action) =
        proxy_step(&config, &request_headers, state, ProxyEvent::ResponseBodyRead { len: 17 });
    assert!(matches!(state, ProxyState::Finished));
    match &action {
        ProxyAction::Respond { status, headers } => {
            assert_eq!(*status, 200);
            assert_eq!(
                pairs(headers),
                vec![p("content-type", "application/json"), p("content-length", "17")]
            );
        }
        _ => panic!("expected Respond"),
    }
}

#[test]
fn test_proxy_step_streaming_flow() {
    let config = config_with_key("k");
    let (state, _) = proxy_step(
        &config,
        &vec![],
        ProxyState::Received,
        ProxyEvent::Arrived { path_and_query: None },
    );
    match &state {
        ProxyState::AwaitingBody { url, .. } => assert_eq!(url, "https://api.anthropic.com/"),
        _ => panic!("expected AwaitingBody"),
    }
    let (state, _) = proxy_step(&config, &vec![], state, ProxyEvent::BodyRead);
    let (state, action) = proxy_step(
        &config,
        &vec![],
        state,
        ProxyEvent::UpstreamReplied {
            status: 201,
            headers: vec![h("content-type", "text/event-stream"), h("content-length", "5")],
        },
    );
    assert!(matches!(state, ProxyState::Finished));
    match &action {
        ProxyAction::Stream { status, headers } => {
            assert_eq!(*status, 201);
            assert_eq!(pairs(headers), vec![p("content-type", "text/event-stream")]);
        }
        _ => panic!("expected Stream"),
    }
}

#[test]
fn test_proxy_step_failures() {
    let config = config_with_key("k");
    let mut bad_target = config_with_key("k");
    bad_target.anthropic_target_url = "http://exa mple.com".to_string();
    let (state, action) = proxy_step(
        &bad_target,
        &vec![],
        ProxyState::Received,
        ProxyEvent::Arrived { path_and_query: Some("/v1".to_string()) },
    );
    assert!(matches!(state, ProxyState::Finished));
    assert!(matches!(action, ProxyAction::Reject { status } if status == STATUS_INTERNAL_SERVER_ERROR));

    let awaiting = || ProxyState::AwaitingBody {
        url: "https://api.anthropic.com/".to_string(),
        host: Some("api.anthropic.com".to_string()),
    };
    let (_, action) = proxy_step(&config, &vec![], awaiting(), ProxyEvent::BodyFailed);
    assert!(matches!(action, ProxyAction::Reject { status } if status == STATUS_BAD_REQUEST));

    let bad_key = config_with_key("line\nbreak");
    let (_, action) = proxy_step(&bad_key, &vec![], awaiting(), ProxyEvent::BodyRead);
    assert!(matches!(action, ProxyAction::Reject { status } if status == STATUS_INTERNAL_SERVER_ERROR));

    let (_, action) =
        proxy_step(&config, &vec![], ProxyState::AwaitingUpstream, ProxyEvent::UpstreamFailed);
    assert!(matches!(action, ProxyAction::Reject { status } if status == STATUS_BAD_GATEWAY));

    let (_, action) = proxy_step(
        &config,
        &vec![],
        ProxyState::AwaitingResponseBody { status: 200, headers: vec![] },
        ProxyEvent::ResponseBodyFailed,
    );
    assert!(matches!(action, ProxyAction::Reject { status } if status == STATUS_BAD_GATEWAY));
}

#[test]
fn test_headers_for_log_redacts_secrets() {
    let hs = vec![
        h("authorization", "Bearer secret"),
        h("x-api-key", "sk-secret"),
        h("content-type", "application/json"),
        HeaderField { name: "x-binary".to_string(), value: vec![0xff, b'a'] },
        h("accept", "a"),
        h("accept", "b"),
    ];
    let logged: Vec<(String, String)> =
        headers_for_log(&hs).into_iter().map(|l| (l.name, l.text)).collect();
    assert_eq!(
        logged,
        vec![
            p("authorization", "[REDACTED]"),
            p("x-api-key", "[REDACTED]"),
            p("content-type", "application/json"),
            p("x-binary", "\u{FFFD}a"),
            p("accept", "b"),
        ]
    );
}

/// A body of about `size` bytes, as the logging tests build it.
fn generate_test_body(size: usize) -> Vec<u8> {
    let mut body = String::with_capacity(size);
    body.push_str(r#"{"message":"#);
    while body.len() < size - 2 {
        body.push('a');
    }
    body.push('}');
    body.into_bytes()
}

/// The logged body text, when the body is logged in full.
fn content(log: BodyLog) -> Option<(String, usize)> {
    match log {
        BodyLog::Content { text, size } => Some((text, size)),
        _ => None,
    }
}

#[test]
fn test_request_body_logging_enabled() {
    let body = generate_test_body(100);
    let (text, size) = content(body_for_log(&body, true, 1000)).expect("body logged");
    assert_eq!(size, body.len());
    assert_eq!(text.as_bytes(), &body[..]);
}

#[test]
fn test_request_body_logging_disabled() {
    let body = generate_test_body(100);
    match body_for_log(&body, false, 1000) {
        BodyLog::NotLogged { size } => assert_eq!(size, body.len()),
        _ => panic!("body content must not be logged when body logging is off"),
    }
}

#[test]
fn test_request_body_size_limit() {
    let body = generate_test_body(1000);
    match body_for_log(&body, true, 500) {
        BodyLog::TooLarge { size } => assert_eq!(size, body.len()),
        _ => panic!("a body over the limit is logged by its size only"),
    }
}

#[test]
fn test_response_body_logging_enabled() {
    let body = generate_test_body(100);
    assert!(content(body_for_log(&body, true, 1000)).is_some());
}

#[test]
fn test_response_body_logging_disabled() {
    let body = generate_test_body(100);
    assert!(matches!(body_for_log(&body, false, 1000), BodyLog::NotLogged { .. }));
}

#[test]
fn test_response_body_size_limit() {
    let body = generate_test_body(1000);
    assert!(matches!(body_for_log(&body, true, 500), BodyLog::TooLarge { .. }));
}

#[test]
fn test_body_exactly_at_size_limit() {
    let size_limit = 100;
    let body = generate_test_body(size_limit);
    assert!(content(body_for_log(&body, true, size_limit)).is_some());
    let exact = vec![b'a'; size_limit];
    let (text, size) = content(body_for_log(&exact, true, size_limit)).expect("logged");
    assert_eq!(size, size_limit);
    assert_eq!(text.len(), size_limit);
    assert!(matches!(
        body_for_log(&[b'a'; 101], true, size_limit),
        BodyLog::TooLarge { size: 101 }
    ));
}

#[test]
fn test_empty_body_logging() {
    assert!(matches!(body_for_log(b"", true, 1000), BodyLog::Empty));
    assert!(matches!(body_for_log(b"", false, 1000), BodyLog::Empty));
}

#[test]
fn test_body_logging_json_and_text() {
    let (text, size) = content(body_for_log(br#"{"a":1}"#, true, 20480)).expect("logged");
    assert_eq!(text, "{\n  \"a\": 1\n}");
    assert_eq!(size, 7);
    let (text, size) = content(body_for_log(b"plain text", true, 20480)).expect("logged");
    assert_eq!(text, "plain text");
    assert_eq!(size, 10);
    let (text, _) = content(body_for_log(&[0xff, b'x'], true, 20480)).expect("logged");
    assert_eq!(text, "\u{FFFD}x");
}

#[test]
fn test_accepts_event() {
    assert!(accepts_event(&ProxyState::Received, &ProxyEvent::Arrived { path_and_query: None }));
    assert!(!accepts_event(&ProxyState::Received, &ProxyEvent::BodyRead));
    assert!(accepts_event(&ProxyState::AwaitingUpstream, &ProxyEvent::UpstreamFailed));
    assert!(!accepts_event(&ProxyState::Finished, &ProxyEvent::BodyRead));
}
