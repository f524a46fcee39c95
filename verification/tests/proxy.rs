use axum::http::{HeaderMap, HeaderName, HeaderValue};
use oxllm::config::{VirtualModelTarget, VirtualModels};
use oxllm::headers::{copy_response_headers, extract_retry_after, extract_traceparent};
use oxllm::proxy::{
    create_chat_completions, create_embeddings, stream_failed, token_counts, Answer, Operation,
    ProxyRequest, UpstreamRequest,
};
use oxllm::router::{
    deadline, AdaptivePriorityStrategy, Report, Selected, COOLDOWN_SECS, PROBE_COOLDOWN_SECS, SECOND,
};
use oxllm::state::{AppState, CircuitState, Health, ProviderState, Usage};

const STRATEGY: AdaptivePriorityStrategy = AdaptivePriorityStrategy;

fn healthy() -> Health {
    Health {
        circuit: CircuitState::Closed,
        rate_limited_until: None,
        consecutive_failures: 0,
        last_attempt_time: None,
        probe_in_flight: false,
        manual_disabled: false,
    }
}

fn provider(name: &str, url: &str) -> ProviderState {
    ProviderState {
        name: name.to_string(),
        base_url: reqwest::Url::parse(url).unwrap(),
        api_key: format!("key-{}", name),
        models: vec!["gpt-4-upstream".to_string()],
        health: healthy(),
        usage: Usage { requests: 0, successes: 0, tokens_input: 0, tokens_output: 0 },
    }
}

fn target(provider: &str, model: &str) -> VirtualModelTarget {
    VirtualModelTarget { provider: provider.to_string(), model: model.to_string() }
}

fn state(providers: Vec<ProviderState>, targets: Vec<VirtualModelTarget>) -> AppState {
    let mut virtual_models = VirtualModels::new();
    virtual_models.insert("gpt-4".to_string(), targets);
    AppState { providers, virtual_models, upstream_timeout_secs: 5, api_key: String::new() }
}

fn two() -> AppState {
    state(
        vec![provider("prov1", "http://one/v1/"), provider("prov2", "http://two/v1/")],
        vec![target("prov1", "gpt-4-upstream"), target("prov2", "gpt-4-upstream")],
    )
}

fn headers(list: &[(&str, &str)]) -> HeaderMap {
    let mut h = HeaderMap::new();
    for (k, v) in list {
        h.append(HeaderName::from_bytes(k.as_bytes()).unwrap(), HeaderValue::from_str(v).unwrap());
    }
    h
}

fn refused(r: Result<ProxyRequest, oxllm::reply::TextReply>) -> (u16, String) {
    match r {
        Ok(_) => panic!("opened"),
        Err(reply) => (reply.status, reply.text),
    }
}

fn sent(r: Result<UpstreamRequest, oxllm::reply::TextReply>) -> UpstreamRequest {
    match r {
        Ok(u) => u,
        Err(reply) => panic!("refused: {}", reply.text),
    }
}

fn body_of(u: &UpstreamRequest) -> serde_json::Value {
    serde_json::from_slice(&u.body).unwrap()
}

const CHAT: &[u8] = br#"{"model":"gpt-4","messages":[{"role":"user","content":"hi"}]}"#;

#[test]
fn test_integration_rate_limit_failover() {
    let mut state = two();
    let mut request =
        create_chat_completions(&state, &HeaderMap::new(), CHAT, 0).unwrap();

    let first = sent(request.dispatch(&mut state, &STRATEGY, 0));
    assert_eq!(first.provider, "prov1");
    let limited = headers(&[("retry-after", "1"), ("content-length", "0")]);
    assert!(matches!(
        request.headers_received(&mut state, &STRATEGY, &first, 429, &limited, 0),
        Answer::TryNext
    ));

    let second = sent(request.dispatch(&mut state, &STRATEGY, 0));
    assert_eq!(second.provider, "prov2");
    assert_eq!(second.authorization, "Bearer key-prov2");
    let ok = headers(&[("content-type", "application/json"), ("content-length", "75")]);
    assert!(matches!(
        request.headers_received(&mut state, &STRATEGY, &second, 200, &ok, 0),
        Answer::ReadBody
    ));
    let answer: &[u8] = b"{\"choices\":[{\"message\":{\"role\":\"assistant\",\"content\":\"Hello from prov2\"}}]}";
    let delivery = request.body_received(&mut state, &STRATEGY, &second, 200, answer, 0);
    assert_eq!(delivery.status, 200);
    assert_eq!(delivery.record.provider, "prov2");
    assert_eq!(delivery.record.attempts, 2);
    assert_eq!(delivery.record.failure_reason.as_deref(), Some("429_tokens_exhausted"));

    let body: serde_json::Value = serde_json::from_slice(answer).unwrap();
    let content = body["choices"][0]["message"]["content"].as_str().unwrap();
    assert_eq!(content, "Hello from prov2");

    assert!(state.providers[0].health.rate_limited_until.is_some());
    assert_eq!(state.providers[0].health.rate_limited_until, Some(SECOND as u128));
}

#[test]
fn test_integration_sse_streaming() {
    let mut state = state(
        vec![provider("prov1", "http://one")],
        vec![target("prov1", "gpt-4-upstream")],
    );
    let body = br#"{"model":"gpt-4","messages":[{"role":"user","content":"hi"}],"stream":true}"#;
    let mut request = create_chat_completions(&state, &HeaderMap::new(), body, 0).unwrap();
    let upstream = sent(request.dispatch(&mut state, &STRATEGY, 0));
    assert_eq!(upstream.url, "http://one/chat/completions");

    let answer = headers(&[("content-type", "text/event-stream")]);
    let delivery = match request.headers_received(&mut state, &STRATEGY, &upstream, 200, &answer, 7)
    {
        Answer::Stream(d) => d,
        _ => panic!("not streamed"),
    };
    assert_eq!(delivery.status, 200);
    assert_eq!(delivery.record.operation, "chat");
    assert_eq!(delivery.record.input_tokens, 0);
    assert_eq!(delivery.record.duration, 7);
    assert_eq!(delivery.record.attempts, 1);
    assert!(delivery.record.failure_reason.is_none());
    assert_eq!(state.providers[0].usage.successes, 1);

    let mut passed_on = HeaderMap::new();
    assert!(copy_response_headers(&answer, &mut passed_on));
    assert_eq!(passed_on.get("content-type").unwrap(), "text/event-stream");

    // An upstream that breaks off is penalized.
    stream_failed(&mut state, "prov1");
    assert_eq!(state.providers[0].health.consecutive_failures, 1);
    assert_eq!(state.providers[0].health.circuit, CircuitState::Closed);
    stream_failed(&mut state, "nobody");
    assert_eq!(state.providers[0].health.consecutive_failures, 1);
}

#[test]
fn what_cannot_be_opened() {
    let state = two();
    let none = HeaderMap::new();
    let (status, text) = refused(create_chat_completions(&state, &none, b"{", 0));
    assert_eq!(status, 400);
    assert_eq!(text, "Invalid JSON payload: EOF while parsing an object at line 1 column 1");
    for body in ["{}", "[]", "3", "null", r#"{"model":3}"#, r#"{"model":null}"#] {
        assert_eq!(
            refused(create_embeddings(&state, &none, body.as_bytes(), 0)),
            (400, "Missing required 'model' field".to_string())
        );
    }
    assert_eq!(
        refused(create_embeddings(&state, &none, br#"{"model":"gpt-5"}"#, 0)),
        (400, "Invalid or unmapped virtual model: gpt-5".to_string())
    );
    let payload: serde_json::Value = serde_json::from_str(r#"{"model":"gpt-4"}"#).unwrap();
    assert!(ProxyRequest::open(Operation::Embeddings, &state, payload, &none, 0).is_ok());
}

#[test]
fn what_a_provider_is_sent() {
    let mut state = two();
    state.upstream_timeout_secs = 30;
    let trace = "00-4bf92f3577b34da6a3ce929d0e0e4736-00f067aa0ba902b7-01";
    let h = headers(&[("traceparent", trace), ("tracestate", "a=1"), ("tracestate", "b=2")]);
    let body = br#"{"input":["a","b"],"model":"gpt-4","dimensions":3}"#;
    let mut request = create_embeddings(&state, &h, body, 0).unwrap();
    let u = sent(request.dispatch(&mut state, &STRATEGY, 42));
    assert_eq!(u.provider, "prov1");
    assert_eq!(u.model, "gpt-4-upstream");
    assert!(!u.is_probe);
    assert_eq!(u.url, "http://one/v1/embeddings");
    assert_eq!(u.authorization, "Bearer key-prov1");
    assert_eq!(u.content_type, "application/json");
    assert_eq!(u.traceparent.as_deref(), Some(trace.as_bytes()));
    assert_eq!(u.tracestate.as_deref(), Some(&b"a=1"[..]));
    assert_eq!(u.timeout_secs, 30);
    assert_eq!(u.body, br#"{"dimensions":3,"input":["a","b"],"model":"gpt-4-upstream"}"#);
    assert_eq!(state.providers[0].usage.requests, 1);
    assert_eq!(state.providers[0].health.last_attempt_time, Some(42));
    assert_eq!(state.providers[1].usage.requests, 0);

    let answer = br#"{"usage":{"prompt_tokens":12,"completion_tokens":34}}"#;
    assert!(matches!(
        request.headers_received(&mut state, &STRATEGY, &u, 201, &HeaderMap::new(), 50),
        Answer::ReadBody
    ));
    assert_eq!(state.providers[0].usage.successes, 0);
    let d = request.body_received(&mut state, &STRATEGY, &u, 201, answer, 52);
    assert_eq!(d.status, 200);
    assert_eq!(d.record.operation, "embeddings");
    assert_eq!(d.record.model, "gpt-4-upstream");
    assert_eq!((d.record.input_tokens, d.record.output_tokens), (12, 34));
    assert_eq!(d.record.duration, 52);
    assert_eq!(d.record.trace_id.as_deref(), Some("4bf92f3577b34da6a3ce929d0e0e4736"));
    assert_eq!(d.record.parent_span_id.as_deref(), Some("00f067aa0ba902b7"));
    let usage = state.providers[0].usage;
    assert_eq!(
        (usage.requests, usage.successes, usage.tokens_input, usage.tokens_output),
        (1, 1, 12, 34)
    );
}

#[test]
fn a_chat_completion_counts_at_headers_and_at_body() {
    let mut state = two();
    let mut request = create_chat_completions(&state, &HeaderMap::new(), CHAT, 0).unwrap();
    let u = sent(request.dispatch(&mut state, &STRATEGY, 0));
    request.headers_received(&mut state, &STRATEGY, &u, 200, &HeaderMap::new(), 0);
    assert_eq!(state.providers[0].usage.successes, 1);
    request.body_received(&mut state, &STRATEGY, &u, 200, b"not json", 0);
    assert_eq!(state.providers[0].usage.successes, 2);
    assert_eq!(state.providers[0].usage.tokens_input, 0);
}

#[test]
fn streaming_is_for_chat_only_and_asked_for() {
    for (body, streamed) in [
        (r#"{"model":"gpt-4","stream":true}"#, true),
        (r#"{"model":"gpt-4","stream":false}"#, false),
        (r#"{"model":"gpt-4","stream":"true"}"#, false),
        (r#"{"model":"gpt-4"}"#, false),
    ] {
        let mut state = two();
        let none = HeaderMap::new();
        let mut chat = create_chat_completions(&state, &none, body.as_bytes(), 0).unwrap();
        let u = sent(chat.dispatch(&mut state, &STRATEGY, 0));
        let a = chat.headers_received(&mut state, &STRATEGY, &u, 200, &none, 0);
        assert_eq!(matches!(a, Answer::Stream(_)), streamed);
        let mut embed = create_embeddings(&state, &none, body.as_bytes(), 0).unwrap();
        let u = sent(embed.dispatch(&mut state, &STRATEGY, 0));
        let a = embed.headers_received(&mut state, &STRATEGY, &u, 200, &none, 0);
        assert!(matches!(a, Answer::ReadBody));
    }
}

#[test]
fn every_candidate_is_tried_once() {
    let mut state = two();
    let mut request = create_chat_completions(&state, &HeaderMap::new(), CHAT, 0).unwrap();
    let u = sent(request.dispatch(&mut state, &STRATEGY, 0));
    request.connection_failed(&mut state, &STRATEGY, &u, 0);
    let u = sent(request.dispatch(&mut state, &STRATEGY, 0));
    assert_eq!(u.provider, "prov2");
    request.headers_received(&mut state, &STRATEGY, &u, 200, &HeaderMap::new(), 0);
    request.body_failed(&mut state, &STRATEGY, &u, 200, 0);
    match request.dispatch(&mut state, &STRATEGY, 0) {
        Ok(_) => panic!("tried twice"),
        Err(reply) => {
            assert_eq!(reply.status, 502);
            assert_eq!(
                reply.text,
                "All upstream chat completions providers failed or are rate-limited"
            );
        },
    }
    assert_eq!(state.providers[0].health.consecutive_failures, 1);
    assert_eq!(state.providers[1].health.consecutive_failures, 1);

    state.providers[0].health.manual_disabled = true;
    state.providers[1].health.rate_limited_until = Some(100);
    let body = br#"{"model":"gpt-4"}"#;
    let mut request = create_embeddings(&state, &HeaderMap::new(), body, 0).unwrap();
    match request.dispatch(&mut state, &STRATEGY, 99) {
        Ok(_) => panic!("nobody is available"),
        Err(reply) => assert_eq!(
            (reply.status, reply.text.as_str()),
            (502, "All upstream embeddings providers failed or are rate-limited")
        ),
    }
}

#[test]
fn a_url_that_cannot_be_joined_is_passed_over() {
    let mut state = state(
        vec![provider("prov1", "mailto:nobody@example.com"), provider("prov2", "http://two/v1/")],
        vec![target("prov1", "a"), target("prov2", "b")],
    );
    let mut request = create_chat_completions(&state, &HeaderMap::new(), CHAT, 0).unwrap();
    let u = sent(request.dispatch(&mut state, &STRATEGY, 3));
    assert_eq!(u.provider, "prov2");
    assert_eq!(body_of(&u)["model"].as_str(), Some("b"));
    assert_eq!(state.providers[0].usage.requests, 0);
    assert_eq!(state.providers[0].health.last_attempt_time, Some(3));
    request.headers_received(&mut state, &STRATEGY, &u, 200, &HeaderMap::new(), 3);
    let d = request.complete(&mut state, &STRATEGY, &u, 200, (5, 6), 3);
    assert_eq!(d.record.attempts, 2);
    assert_eq!(d.record.failure_reason.as_deref(), Some("invalid_base_url"));
    assert_eq!(state.providers[1].usage.tokens_input, 5);
}

#[test]
fn a_base_url_is_a_directory_only_with_a_slash() {
    let mut state = state(vec![provider("prov1", "http://one/v1")], vec![target("prov1", "a")]);
    let mut request = create_chat_completions(&state, &HeaderMap::new(), CHAT, 0).unwrap();
    let u = sent(request.dispatch(&mut state, &STRATEGY, 0));
    assert_eq!(u.url, "http://one/chat/completions");
}

#[test]
fn the_model_is_that_of_the_first_candidate_at_the_provider() {
    let mut state = state(
        vec![provider("prov1", "http://one/"), provider("prov2", "http://two/")],
        vec![target("prov1", "a"), target("prov1", "b"), target("prov2", "c")],
    );
    let mut request = create_chat_completions(&state, &HeaderMap::new(), CHAT, 0).unwrap();
    for (name, model) in [("prov1", "a"), ("prov1", "a"), ("prov2", "c")] {
        let u = sent(request.dispatch(&mut state, &STRATEGY, 0));
        assert_eq!((u.provider.as_str(), u.model.as_str()), (name, model));
        request.connection_failed(&mut state, &STRATEGY, &u, 0);
    }
    assert!(request.dispatch(&mut state, &STRATEGY, 0).is_err());
}

#[test]
fn an_attempt_without_a_url_sends_nothing() {
    let mut state = two();
    let mut request = create_chat_completions(&state, &HeaderMap::new(), CHAT, 0).unwrap();
    let selected = Selected { candidate: 0, provider: 0, is_probe: true };
    assert!(request.attempt(&mut state, selected, None).is_none());
    let selected = Selected { candidate: 1, provider: 1, is_probe: true };
    let u = request.attempt(&mut state, selected, Some("http://x/".to_string())).unwrap();
    assert_eq!(u.url, "http://x/");
    assert!(u.is_probe);
    assert_eq!(state.providers[1].usage.requests, 1);
}

#[test]
fn three_failures_open_the_circuit() {
    let failure =
        Report { success: false, is_probe: false, status: Some(500), retry_after: None };
    let mut h = healthy();
    for _ in 0..2 {
        h = STRATEGY.feedback(h, failure, 10);
        assert_eq!(h.circuit, CircuitState::Closed);
        assert!(h.is_available(10));
    }
    h = STRATEGY.feedback(h, failure, 10);
    assert_eq!(h.consecutive_failures, 3);
    assert_eq!(h.circuit, CircuitState::Open { until: 10 + 60 * SECOND as u128 });
    assert!(!h.is_available(9 + 60 * SECOND));
    assert!(h.is_available(10 + 60 * SECOND));
    let success = Report { success: true, is_probe: false, status: Some(200), retry_after: None };
    assert_eq!(STRATEGY.feedback(h, success, 11).consecutive_failures, 0);
    h.consecutive_failures = u32::MAX;
    assert_eq!(STRATEGY.feedback(h, failure, 11).consecutive_failures, u32::MAX);
}

#[test]
fn one_request_probes_at_a_time() {
    let mut state = two();
    state.providers[0].health.circuit = CircuitState::Open { until: 100 };
    let mut waiting = create_chat_completions(&state, &HeaderMap::new(), CHAT, 0).unwrap();
    let u = sent(waiting.dispatch(&mut state, &STRATEGY, 99));
    assert_eq!(u.provider, "prov2");

    let mut probe = create_chat_completions(&state, &HeaderMap::new(), CHAT, 0).unwrap();
    let p = sent(probe.dispatch(&mut state, &STRATEGY, 100));
    assert_eq!(p.provider, "prov1");
    assert!(p.is_probe);
    assert_eq!(state.providers[0].health.circuit, CircuitState::HalfOpen);
    assert!(state.providers[0].health.probe_in_flight);

    let mut other = create_chat_completions(&state, &HeaderMap::new(), CHAT, 0).unwrap();
    assert_eq!(sent(other.dispatch(&mut state, &STRATEGY, 1000)).provider, "prov2");

    let before = state.providers[0].health;
    probe.headers_received(&mut state, &STRATEGY, &p, 200, &HeaderMap::new(), 1000);
    assert_eq!(state.providers[0].health.circuit, CircuitState::Closed);
    assert!(!state.providers[0].health.probe_in_flight);
    assert_eq!(state.providers[0].health.consecutive_failures, 0);

    state.providers[0].health = before;
    probe.headers_received(&mut state, &STRATEGY, &p, 503, &HeaderMap::new(), 1000);
    assert_eq!(
        state.providers[0].health.circuit,
        CircuitState::Open { until: 1000 + 120 * SECOND as u128 }
    );
    assert!(PROBE_COOLDOWN_SECS > COOLDOWN_SECS);
    assert!(!state.providers[0].health.probe_in_flight);
    assert_eq!(state.providers[0].health.consecutive_failures, 1);
}

#[test]
fn only_overload_limits_the_rate() {
    for (status, limited) in
        [(429, true), (500, true), (599, true), (400, false), (404, false), (428, false), (600, false)]
    {
        let r = Report {
            success: false,
            is_probe: false,
            status: Some(status),
            retry_after: Some(2),
        };
        let h = STRATEGY.feedback(healthy(), r, 5);
        assert_eq!(h.rate_limited_until.is_some(), limited);
        assert_eq!(h.is_limited(4 + 2 * SECOND), limited);
        assert!(!h.is_limited(5 + 2 * SECOND));
        assert_eq!(h.consecutive_failures, 1);
    }
    assert_eq!(deadline(u64::MAX, u64::MAX), u64::MAX as u128 * 1_000_000_001);
}

#[test]
fn selection_prefers_the_first_available() {
    let mut state = two();
    let candidates = state.resolve_candidates("gpt-4");
    let s = STRATEGY.select(&mut state.providers, &candidates, 0, 0).unwrap();
    assert_eq!(s, Selected { candidate: 0, provider: 0, is_probe: false });
    let s = STRATEGY.select(&mut state.providers, &candidates, 1, 0).unwrap();
    assert_eq!(s, Selected { candidate: 1, provider: 1, is_probe: false });
    assert!(STRATEGY.select(&mut state.providers, &candidates, 2, 0).is_none());
    let strangers = vec![target("nobody", "m")];
    assert!(STRATEGY.select(&mut state.providers, &strangers, 0, 0).is_none());
}

#[test]
fn tokens_are_read_where_they_are_stated() {
    for (text, tokens) in [
        (r#"{"usage":{"prompt_tokens":1,"completion_tokens":2}}"#, (1, 2)),
        (r#"{"usage":{"prompt_tokens":1}}"#, (1, 0)),
        (r#"{"usage":{"prompt_tokens":-1,"completion_tokens":2.5}}"#, (0, 0)),
        (r#"{"usage":[]}"#, (0, 0)),
        (r#"[]"#, (0, 0)),
    ] {
        let doc: serde_json::Value = serde_json::from_str(text).unwrap();
        assert_eq!(token_counts(&doc), tokens);
    }
}

#[test]
fn counters_wrap_around() {
    let mut state = two();
    state.providers[0].usage.requests = u64::MAX;
    state.providers[0].usage.tokens_input = u64::MAX;
    let mut request = create_chat_completions(&state, &HeaderMap::new(), CHAT, 0).unwrap();
    let u = sent(request.dispatch(&mut state, &STRATEGY, 0));
    assert_eq!(state.providers[0].usage.requests, 0);
    request.complete(&mut state, &STRATEGY, &u, 200, (3, 0), 0);
    assert_eq!(state.providers[0].usage.tokens_input, 2);
}

#[test]
fn traces_are_read() {
    let read = |v: &str| extract_traceparent(&headers(&[("traceparent", v)]));
    assert_eq!(read("00-a-b-01"), (Some("a".to_string()), Some("b".to_string())));
    assert_eq!(read("00-a-b"), (Some("a".to_string()), Some("b".to_string())));
    assert_eq!(read("--"), (Some(String::new()), Some(String::new())));
    assert_eq!(read("00-a"), (None, None));
    assert_eq!(extract_traceparent(&HeaderMap::new()), (None, None));
    let mut h = HeaderMap::new();
    h.insert("traceparent", HeaderValue::from_bytes(b"00-\xff-b-01").unwrap());
    assert_eq!(extract_traceparent(&h), (None, None));
}

#[test]
fn delays_are_read() {
    assert_eq!(extract_retry_after(&headers(&[("retry-after", "17")])), Some(17));
    assert_eq!(extract_retry_after(&headers(&[("retry-after", "+17")])), Some(17));
    assert_eq!(extract_retry_after(&headers(&[("retry-after", "soon")])), None);
    assert_eq!(extract_retry_after(&headers(&[("retry-after", "")])), None);
    assert_eq!(
        extract_retry_after(&headers(&[("retry-after", "18446744073709551616")])),
        None
    );
    assert_eq!(
        extract_retry_after(&headers(&[
            ("x-ratelimit-reset-requests", "3"),
            ("x-ratelimit-reset-tokens", "2")
        ])),
        Some(2)
    );
    assert_eq!(extract_retry_after(&headers(&[("x-ratelimit-reset-requests", "3")])), Some(3));
    assert_eq!(extract_retry_after(&HeaderMap::new()), None);
}

#[test]
fn only_descriptive_headers_are_passed_on() {
    let src = headers(&[
        ("content-type", "application/json"),
        ("content-length", "75"),
        ("content-encoding", "gzip"),
        ("transfer-encoding", "chunked"),
        ("cache-control", "no-store"),
        ("openai-version", "2020-10-01"),
        ("x-request-id", "first"),
        ("x-request-id", "second"),
        ("set-cookie", "a=b"),
    ]);
    let mut dest = headers(&[("content-length", "1"), ("x-request-id", "old")]);
    assert!(copy_response_headers(&src, &mut dest));
    assert_eq!(dest.len(), 5);
    assert_eq!(dest.get("content-type").unwrap(), "application/json");
    assert_eq!(dest.get("content-length").unwrap(), "1");
    assert_eq!(dest.get("cache-control").unwrap(), "no-store");
    assert_eq!(dest.get("openai-version").unwrap(), "2020-10-01");
    let ids: Vec<_> = dest.get_all("x-request-id").iter().collect();
    assert_eq!(ids, vec!["second"]);
}

#[test]
fn the_first_failure_is_recorded() {
    let targets = ["a", "b", "c", "d"];
    let providers = targets.iter().map(|n| provider(n, "http://host/")).collect();
    let fresh = || {
        state(
            targets.iter().map(|n| provider(n, "http://host/")).collect(),
            targets.iter().map(|n| target(n, "m")).collect(),
        )
    };
    let mut first = state(providers, targets.iter().map(|n| target(n, "m")).collect());
    let none = HeaderMap::new();
    let mut request = create_chat_completions(&first, &none, CHAT, 0).unwrap();
    let u = sent(request.dispatch(&mut first, &STRATEGY, 0));
    request.headers_received(&mut first, &STRATEGY, &u, 503, &none, 0);
    let u = sent(request.dispatch(&mut first, &STRATEGY, 0));
    request.connection_failed(&mut first, &STRATEGY, &u, 0);
    let u = sent(request.dispatch(&mut first, &STRATEGY, 0));
    request.headers_received(&mut first, &STRATEGY, &u, 200, &none, 0);
    let d = request.body_received(&mut first, &STRATEGY, &u, 200, b"{}", 0);
    assert_eq!(d.record.failure_reason.as_deref(), Some("503_upstream_error"));
    assert_eq!(d.record.attempts, 3);

    let mut second = fresh();
    let mut request = create_embeddings(&second, &none, CHAT, 0).unwrap();
    let u = sent(request.dispatch(&mut second, &STRATEGY, 0));
    request.connection_failed(&mut second, &STRATEGY, &u, 0);
    let u = sent(request.dispatch(&mut second, &STRATEGY, 0));
    let d = request.complete(&mut second, &STRATEGY, &u, 200, (0, 0), 0);
    assert_eq!(d.record.failure_reason.as_deref(), Some("connection_failed"));

    let mut third = fresh();
    let mut request = create_embeddings(&third, &none, CHAT, 0).unwrap();
    let u = sent(request.dispatch(&mut third, &STRATEGY, 0));
    request.status_received(&mut third, &STRATEGY, &u, 200, None, 0);
    request.body_failed(&mut third, &STRATEGY, &u, 200, 0);
    let u = sent(request.dispatch(&mut third, &STRATEGY, 0));
    let d = request.complete(&mut third, &STRATEGY, &u, 200, (0, 0), 0);
    assert_eq!(d.record.failure_reason.as_deref(), Some("200_body_failed"));
}

#[test]
fn names_that_are_none_are_not_passed_on() {
    let value = HeaderValue::from_static("v");
    let mut src = HeaderMap::new();
    // A name that HTTP/2 is lenient about.
    src.insert(HeaderName::from_lowercase(b"x-\"quoted\"").unwrap(), value.clone());
    // A long key is not checked when it is put in.
    src.insert(
        "x-long long long long long long long long long long long long long long long",
        value.clone(),
    );
    src.insert("x-good", value);
    assert_eq!(src.len(), 3);
    let mut dest = HeaderMap::new();
    assert!(copy_response_headers(&src, &mut dest));
    assert_eq!(dest.len(), 1);
    assert_eq!(dest.get("x-good").unwrap(), "v");
}
