use axum::http::{HeaderMap, HeaderValue};
use oxllm::auth::{
    auth_or_localhost, check_bearer, decide, is_admin_path, localhost_only, Access, IpAddress,
};
use oxllm::cli::{bind_address, reachability, run_reload, run_status, show_routes, status_url};
use oxllm::config::{
    Config, ProviderConfig, ServerConfig, VirtualModelTarget, VirtualModels,
};
use oxllm::error::OxllmError;
use oxllm::reload::{handle_http_reload, published_reply, reload, ReloadError};
use oxllm::reply::{error_reply, message_reply};
use oxllm::request_id::{add_request_id, generate_request_id, request_id};
use oxllm::router::SECOND;
use oxllm::routes::{
    admin_offline, admin_online, admin_reset, describe_circuit, describe_last_request,
    describe_route_circuit, get_status, health_check, list_models, since_seconds, ModelRoutes,
    ProviderStatus, RouteEntry,
};
use oxllm::state::{build_app_state, AppState, CircuitState};
use oxllm::telemetry::{
    collector_url, metric_document, new_trace_context, span_document, status_metrics,
    trace_context, transaction_metrics, Transaction, CHANNEL_CAPACITY,
};
use oxllm::text::{join, push_decimal, push_hex, push_padded, split_at, trim};

const LOCAL: IpAddress = IpAddress::V4([127, 0, 0, 1]);
const ELSEWHERE: IpAddress = IpAddress::V4([203, 0, 113, 7]);

fn with_authorization(value: &str) -> HeaderMap {
    let mut h = HeaderMap::new();
    h.insert("authorization", HeaderValue::from_str(value).unwrap());
    h
}

fn provider(name: &str) -> ProviderConfig {
    ProviderConfig {
        name: name.to_string(),
        enabled: true,
        base_url: format!("http://{}/", name),
        api_key: "k".to_string(),
        models: vec!["m1".to_string(), "m2".to_string()],
    }
}

fn target(provider: &str, model: &str) -> VirtualModelTarget {
    VirtualModelTarget { provider: provider.to_string(), model: model.to_string() }
}

fn config() -> Config {
    let mut virtual_models = VirtualModels::new();
    virtual_models.insert("first".to_string(), vec![target("a", "x"), target("b", "y")]);
    virtual_models.insert("second".to_string(), vec![target("b", "z")]);
    Config {
        server: ServerConfig::default(),
        providers: vec![provider("a"), provider("b")],
        virtual_models,
    }
}

fn state() -> AppState {
    build_app_state(config()).unwrap()
}

fn ids(state: &AppState, now: u64) -> Vec<String> {
    let r = list_models(state, now);
    assert_eq!(r.object, "list");
    for m in &r.data {
        assert_eq!(m.object, "model");
        assert_eq!(m.created, 1717070400);
        assert_eq!(m.owned_by, "oxllm-virtual");
    }
    r.data.into_iter().map(|m| m.id).collect()
}

#[test]
fn test_check_bearer_logic() {
    // expected empty → always allowed
    assert!(check_bearer(None, ""));
    assert!(check_bearer(Some("garbage"), ""));
    // non-empty expected → only exact bearer matches
    assert!(check_bearer(Some("Bearer secret123"), "secret123"));
    assert!(!check_bearer(Some("Bearer wrong"), "secret123"));
    assert!(!check_bearer(None, "secret123"));
    assert!(!check_bearer(Some("Basic abc"), "secret123"));
    assert!(!check_bearer(Some("Bearer secret1234"), "secret123"));
}

#[test]
fn test_auth_loopback_passes_without_key() {
    let none = HeaderMap::new();
    let state = AppState {
        providers: vec![],
        virtual_models: VirtualModels::new(),
        upstream_timeout_secs: 5,
        api_key: String::new(),
    };
    assert!(auth_or_localhost(&state.api_key, "GET", &LOCAL, "/status", &none).is_ok());
    let status = get_status(&state, 0, 0);
    assert!(status.providers.is_empty() && status.virtual_models.is_empty());
}

#[test]
fn administrators_are_local() {
    let none = HeaderMap::new();
    let key = with_authorization("Bearer secret123");
    let paths = ["/status", "/health", "/reload", "/admin/providers/a/reset"];
    for (path, api_key, headers) in paths
        .iter()
        .flat_map(|p| [(*p, "", &none), (*p, "secret123", &none), (*p, "secret123", &key)])
    {
        let reply = match auth_or_localhost(api_key, "GET", &ELSEWHERE, path, headers) {
            Ok(_) => panic!("admitted"),
            Err(reply) => reply,
        };
        assert_eq!(reply.status, 403);
        let body: serde_json::Value = serde_json::from_slice(&reply.body).unwrap();
        assert_eq!(
            body["error"]["message"].as_str(),
            Some("Access denied: administrative routes are localhost-only")
        );
        assert_eq!(body["error"]["type"].as_str(), Some("forbidden"));
        assert_eq!(body["error"]["code"].as_u64(), Some(403));
    }
    assert!(auth_or_localhost("", "POST", &ELSEWHERE, "/v1/embeddings", &none).is_ok());
}

#[test]
fn the_key_is_asked_for() {
    let path = "/v1/models";
    let right = with_authorization("Bearer secret");
    let wrong = with_authorization("Bearer Secret");
    assert!(auth_or_localhost("secret", "GET", &ELSEWHERE, path, &right).is_ok());
    assert!(auth_or_localhost("secret", "OPTIONS", &ELSEWHERE, path, &wrong).is_ok());
    assert!(auth_or_localhost("secret", "GET", &LOCAL, path, &wrong).is_ok());
    for headers in [wrong, HeaderMap::new(), with_authorization("secret")] {
        let reply = match auth_or_localhost("secret", "GET", &ELSEWHERE, path, &headers) {
            Ok(_) => panic!("admitted"),
            Err(reply) => reply,
        };
        assert_eq!(reply.status, 401);
        let body: serde_json::Value = serde_json::from_slice(&reply.body).unwrap();
        assert_eq!(
            body["error"]["message"].as_str(),
            Some("Unauthorized: provide a valid Bearer token")
        );
        assert_eq!(body["error"]["type"].as_str(), Some("invalid_api_key"));
        assert_eq!(body["error"]["code"].as_u64(), Some(401));
    }
    assert_eq!(
        decide("k", "GET", &ELSEWHERE, "/status", Some("Bearer k")),
        Access::LocalOnly
    );
    assert_eq!(
        decide("k", "GET", &ELSEWHERE, "/v1/models", Some("Bearer k")),
        Access::Admitted
    );
    assert_eq!(decide("", "GET", &ELSEWHERE, "/status", None), Access::LocalOnly);
    assert_eq!(decide("k", "GET", &ELSEWHERE, "/v1/models", None), Access::KeyMissing);
}

#[test]
fn loopback_addresses() {
    let one = IpAddress::V6([0, 0, 0, 0, 0, 0, 0, 1]);
    let mapped = IpAddress::V6([0, 0, 0, 0, 0, 0xffff, 0x7f00, 1]);
    let other = IpAddress::V6([0, 0, 0, 0, 0, 0xffff, 0x0a00, 1]);
    let far = IpAddress::V6([0x2001, 0xdb8, 0, 0, 0, 0, 0, 1]);
    assert!(LOCAL.is_loopback() && LOCAL.is_local());
    assert!(IpAddress::V4([127, 255, 0, 9]).is_loopback());
    assert!(!ELSEWHERE.is_loopback() && !ELSEWHERE.is_local());
    assert!(one.is_loopback() && one.is_local());
    assert!(!mapped.is_loopback() && mapped.is_local());
    assert!(!other.is_local() && !far.is_local());
    assert_eq!(localhost_only(&one), Ok(()));
    assert_eq!(localhost_only(&mapped), Err(403));
}

#[test]
fn administrative_paths() {
    for path in ["/admin/", "/admin/x/y", "/status", "/health", "/reload"] {
        assert!(is_admin_path(path));
    }
    for path in ["/admin", "/status/", "/v1/models", "/v1/admin/", "", "/reloads"] {
        assert!(!is_admin_path(path));
    }
}

#[test]
fn models_are_listed_while_something_serves_them() {
    let mut s = state();
    assert_eq!(ids(&s, 0), vec!["first", "second"]);
    s.providers[1].health.rate_limited_until = Some(10);
    assert_eq!(ids(&s, 9), vec!["first"]);
    assert_eq!(ids(&s, 10), vec!["first", "second"]);
    s.providers[0].health.circuit = CircuitState::Open { until: 5 };
    assert!(ids(&s, 4).is_empty());
    assert_eq!(ids(&s, 5), vec!["first"]);
    s.providers[0].health.circuit = CircuitState::HalfOpen;
    assert_eq!(ids(&s, 4), vec!["first"]);
    assert_eq!(admin_offline(&mut s, "a").status, 200);
    assert!(ids(&s, 4).is_empty());
    admin_online(&mut s, "a");
    assert_eq!(ids(&s, 4), vec!["first"]);
    s.providers.clear();
    assert!(ids(&s, 4).is_empty());
}

#[test]
fn status_is_told() {
    let mut s = state();
    s.virtual_models.insert("third".to_string(), vec![target("gone", "w")]);
    s.providers[0].usage.requests = 7;
    s.providers[0].usage.successes = 5;
    s.providers[0].usage.tokens_input = 100;
    s.providers[0].usage.tokens_output = 50;
    s.providers[0].health.last_attempt_time = Some(0);
    s.providers[1].usage.requests = 2;
    s.providers[1].health.circuit = CircuitState::Open { until: 200 * SECOND as u128 };
    s.providers[1].health.consecutive_failures = 3;
    s.providers[1].health.rate_limited_until = Some(u128::MAX);
    let r = get_status(&s, 30 * SECOND, 150 * SECOND);
    assert_eq!(r.uptime_secs, 120);
    assert_eq!(r.total_requests, 9);
    let a = &r.providers[0];
    assert_eq!((a.name.as_str(), a.models.as_str()), ("a", "m1, m2"));
    assert_eq!(a.circuit, "Closed (Healthy)");
    assert_eq!((a.requests, a.successes, a.tokens_input, a.tokens_output), (7, 5, 100, 50));
    assert_eq!(a.last_request, "2m ago");
    assert!(!a.rate_limited);
    let b = &r.providers[1];
    assert_eq!(b.circuit, "Open (Cooldown: 50s left)");
    assert_eq!(b.failures, 3);
    assert!(b.rate_limited);
    assert_eq!(b.last_request, "Never");
    assert_eq!(r.virtual_models.len(), 3);
    let first = &r.virtual_models[0];
    assert_eq!(first.name, "first");
    assert_eq!(first.routes[0].circuit, "Closed (Healthy)");
    assert_eq!((first.routes[0].requests, first.routes[0].successes), (7, 5));
    assert_eq!(first.routes[1].circuit, "Open (50s cooldown)");
    let third = &r.virtual_models[2].routes[0];
    assert_eq!(third.circuit, "Unknown");
    assert_eq!((third.requests, third.successes), (0, 0));
}

#[test]
fn descriptions() {
    let at = |secs: u64| describe_last_request(Some(0), secs * SECOND);
    assert_eq!(at(0), "Just now");
    assert_eq!(at(59), "Just now");
    assert_eq!(at(60), "1m ago");
    assert_eq!(at(3599), "59m ago");
    assert_eq!(at(3600), "1h ago");
    assert_eq!(at(86399), "23h ago");
    assert_eq!(at(86400), "1d ago");
    assert_eq!(at(1_000_000), "11d ago");
    assert_eq!(describe_last_request(Some(5), 1), "Just now");
    assert_eq!(describe_last_request(None, 1), "Never");
    assert_eq!(describe_circuit(CircuitState::HalfOpen, 0), "Half-Open (Probing)");
    let open = CircuitState::Open { until: 2 * SECOND as u128 - 1 };
    assert_eq!(describe_circuit(open, 0), "Open (Cooldown: 1s left)");
    assert_eq!(describe_route_circuit(open, u64::MAX), "Open (0s cooldown)");
    assert_eq!(describe_route_circuit(CircuitState::HalfOpen, 0), "Half-Open (Probing)");
    assert_eq!(since_seconds(SECOND, 0), 0);
}

#[test]
fn administrators_step_in() {
    let mut s = state();
    let r = admin_offline(&mut s, "b");
    assert_eq!((r.status, r.text.as_str()), (200, "Provider 'b' taken offline"));
    assert!(!s.providers[1].health.is_available(0));
    let r = admin_online(&mut s, "b");
    assert_eq!((r.status, r.text.as_str()), (200, "Provider 'b' brought online"));
    assert!(s.providers[1].health.is_available(0));
    s.providers[1].health.circuit = CircuitState::Open { until: 10 };
    s.providers[1].health.consecutive_failures = 4;
    s.providers[1].health.rate_limited_until = Some(10);
    s.providers[1].health.manual_disabled = true;
    let r = admin_reset(&mut s, "b");
    assert_eq!((r.status, r.text.as_str()), (200, "Provider 'b' reset to healthy"));
    assert_eq!(s.providers[1].health, s.providers[0].health);
    for r in [
        admin_offline(&mut s, "c"),
        admin_online(&mut s, "c"),
        admin_reset(&mut s, "c"),
    ] {
        assert_eq!((r.status, r.text.as_str()), (404, "Provider 'c' not found"));
    }
    let r = health_check();
    assert_eq!((r.status, r.text.as_str()), (200, "OK"));
}

#[test]
fn reloading() {
    let s = handle_http_reload(Ok(config())).unwrap();
    assert_eq!(s.providers.len(), 2);

    let reply = handle_http_reload(Err("no file".to_string())).unwrap_err();
    assert_eq!(reply.status, 400);
    assert_eq!(
        reply.body,
        br#"{"error":{"code":400,"message":"Failed to load config: no file","type":"invalid_request_error"}}"#
    );

    let mut c = config();
    c.providers.clear();
    let reply = handle_http_reload(Ok(c)).unwrap_err();
    let body: serde_json::Value = serde_json::from_slice(&reply.body).unwrap();
    assert_eq!(
        body["error"]["message"].as_str(),
        Some("Config validation failed: Configuration error: At least one provider must be defined")
    );

    let mut c = config();
    c.providers[0].base_url = "::".to_string();
    let reply = handle_http_reload(Ok(c)).unwrap_err();
    let body: serde_json::Value = serde_json::from_slice(&reply.body).unwrap();
    assert_eq!(
        body["error"]["message"].as_str(),
        Some("Failed to build state: Configuration error: Invalid base URL '::' for provider 'a': relative URL without a base")
    );

    assert!(matches!(reload(Err("x".to_string())), Err(ReloadError::Load(m)) if m == "x"));
    assert_eq!(
        ReloadError::Build(OxllmError::ConfigLoad("y".to_string())).message(),
        "Failed to build state: Configuration error: y"
    );

    let done = published_reply(true);
    assert_eq!(done.status, 200);
    assert_eq!(done.body, br#"{"message":"Configuration reloaded successfully"}"#);
    let failed = published_reply(false);
    assert_eq!(failed.status, 500);
    let body: serde_json::Value = serde_json::from_slice(&failed.body).unwrap();
    assert_eq!(body["error"]["message"].as_str(), Some("Failed to send config update"));
    assert_eq!(body["error"]["type"].as_str(), Some("internal_error"));
    assert_eq!(body["error"]["code"].as_u64(), Some(500));
}

#[test]
fn replies_are_json() {
    let r = error_reply(418, "teapot", "short \"and\" stout".to_string());
    assert_eq!(r.status, 418);
    assert_eq!(
        r.body,
        br#"{"error":{"code":418,"message":"short \"and\" stout","type":"teapot"}}"#
    );
    assert_eq!(message_reply(200, "hi").body, br#"{"message":"hi"}"#);
}

#[test]
fn request_ids() {
    assert_eq!(request_id(0), "oxllm-0000000000000000");
    assert_eq!(request_id(0xdeadbeef), "oxllm-00000000deadbeef");
    assert_eq!(request_id(u64::MAX), "oxllm-ffffffffffffffff");
    let id = generate_request_id();
    assert_eq!(id.len(), 22);
    assert!(id.starts_with("oxllm-"));
    assert!(u64::from_str_radix(&id[6..], 16).is_ok());
    // Drawn at random, so hardly ever the same.
    assert_ne!(generate_request_id(), generate_request_id());

    let mut h = HeaderMap::new();
    assert!(add_request_id(&mut h, &id));
    assert_eq!(h.get("x-request-id").unwrap(), id.as_str());
    assert!(add_request_id(&mut h, &request_id(1)));
    assert_eq!(h.get("x-request-id").unwrap(), id.as_str());
    assert_eq!(h.len(), 1);
}

#[test]
fn addresses() {
    assert_eq!(bind_address("127.0.0.1", 8080), "127.0.0.1:8080");
    assert_eq!(bind_address("::", 0), ":::0");
    assert_eq!(status_url(65535), "http://127.0.0.1:65535/status");
}

#[test]
fn the_process_to_signal() {
    assert_eq!(run_reload(Some(7), None), Ok(7));
    assert_eq!(run_reload(None, Some(" 4242\n".to_string())), Ok(4242));
    assert_eq!(
        run_reload(None, None),
        Err("Failed to read PID from /tmp/oxllm.pid. Is the gateway running?".to_string())
    );
    for content in ["", "x", "-1", "4294967296", "1 2"] {
        assert_eq!(
            run_reload(None, Some(content.to_string())),
            Err("Invalid PID in /tmp/oxllm.pid".to_string())
        );
    }
}

#[test]
fn the_status_table() {
    let row = ProviderStatus {
        name: "groq".to_string(),
        models: String::new(),
        circuit: "Closed (Healthy)".to_string(),
        failures: 0,
        rate_limited: true,
        requests: 12,
        successes: 11,
        tokens_input: 345,
        tokens_output: 6789,
        last_request: String::new(),
    };
    let line = "+--------------------+--------------------------------+----------+---------------+----------+-----------+--------------+---------------+";
    let expected = format!(
        "Uptime: 61s | Total requests: 12\n\n{}\n{}\n{}\n{}\n{}\n\n",
        line,
        "| Provider Name      | Circuit Breaker State          | Failures | Rate Limited? | Requests | Successes | Tokens Input | Tokens Output |",
        line,
        format!(
            "| {:<18} | {:<30} | {:<8} | {:<13} | {:<8} | {:<9} | {:<12} | {:<13} |",
            "groq", "Closed (Healthy)", 0, "Yes", 12, 11, 345, 6789
        ),
        line
    );
    let fast = ModelRoutes { name: "fast".to_string(), routes: vec![] };
    let slow = ModelRoutes {
        name: "slow".to_string(),
        routes: vec![RouteEntry {
            provider: "groq".to_string(),
            model: "llama".to_string(),
            circuit: "Unknown".to_string(),
            requests: 0,
            successes: 0,
        }],
    };
    assert_eq!(
        run_status(61, 12, &vec![row], &vec![fast, slow]),
        expected + "fast\nslow\n  groq / llama: Unknown, 0 requests, 0 successes\n"
    );
}

#[test]
fn the_routing_table() {
    let m = ModelRoutes {
        name: "fast".to_string(),
        routes: vec![RouteEntry {
            provider: "groq".to_string(),
            model: "llama".to_string(),
            circuit: "Closed (Healthy)".to_string(),
            requests: 3,
            successes: 2,
        }],
    };
    assert_eq!(
        show_routes(&m),
        "fast\n  groq / llama: Closed (Healthy), 3 requests, 2 successes\n"
    );
}

#[test]
fn texts() {
    let mut s = String::new();
    push_decimal(&mut s, 0);
    push_decimal(&mut s, u128::MAX);
    push_hex(&mut s, 0x1f, 2);
    push_padded(&mut s, "é", 3);
    assert_eq!(s, "0340282366920938463463374607431768211455\u{31}\u{66}é  ");
    assert_eq!(join(&vec!["a".to_string(), "b".to_string()], ", "), "a, b");
    assert_eq!(join(&vec![], ", "), "");
    assert_eq!(split_at("a--b", '-'), vec!["a", "", "b"]);
    assert_eq!(trim("\u{2003}\t a b \n\u{a0}"), "a b");
}

fn record(trace_id: Option<&str>, parent: Option<&str>, why: Option<&str>) -> Transaction {
    Transaction {
        operation: "chat".to_string(),
        provider: "groq".to_string(),
        model: "llama-4-scout".to_string(),
        input_tokens: 1420,
        output_tokens: 312,
        duration: 5,
        attempts: 2,
        failure_reason: why.map(|s| s.to_string()),
        trace_id: trace_id.map(|s| s.to_string()),
        parent_span_id: parent.map(|s| s.to_string()),
    }
}

const TRACE: &str = "4bf92f3577b34da6a3ce929d0e0e4736";
const PARENT: &str = "00f067aa0ba902b7";

#[test]
fn spans() {
    assert_eq!(CHANNEL_CAPACITY, 1024);
    let t = record(Some(TRACE), Some(PARENT), Some("429_tokens_exhausted"));
    let c = trace_context(&t, 1, 2, 3);
    assert_eq!(c.trace_id, TRACE);
    assert_eq!(c.span_id, "0000000000000003");
    assert_eq!(c.parent_span_id.as_deref(), Some(PARENT));
    assert_eq!(
        String::from_utf8(span_document(&t, &c)).unwrap(),
        concat(&[
            r#"{"attributes":{"gen_ai.operation.name":"chat","gen_ai.provider.name":"groq","#,
            r#""gen_ai.request.model":"llama-4-scout","gen_ai.usage.input_tokens":1420,"#,
            r#""gen_ai.usage.output_tokens":312,"proxy.attempts_required":2,"#,
            r#""proxy.initial_failure_reason":"429_tokens_exhausted"},"#,
            r#""name":"oxllm.chat.completions","parent_span_id":"00f067aa0ba902b7","#,
            r#""span_id":"0000000000000003","trace_id":"4bf92f3577b34da6a3ce929d0e0e4736"}"#,
        ])
    );
    let mut t = record(None, None, None);
    t.operation = "embeddings".to_string();
    let c = trace_context(&t, 1, 2, 3);
    assert_eq!(c.trace_id, "00000000000000010000000000000002");
    let span: serde_json::Value = serde_json::from_slice(&span_document(&t, &c)).unwrap();
    assert_eq!(span["name"].as_str(), Some("oxllm.embeddings"));
    assert!(span.get("parent_span_id").is_none());
    assert!(span["attributes"].get("proxy.initial_failure_reason").is_none());
}

#[test]
fn traces_that_are_not_hexadecimal_are_not_continued() {
    for bad in ["", "abc", "4bf92f3577b34da6a3ce929d0e0e473g", "4bf92f3577b34da6a3ce929d0e0e47360"] {
        let c = trace_context(&record(Some(bad), Some(PARENT), None), 1, 2, 3);
        assert_eq!(c.trace_id, "00000000000000010000000000000002");
        assert!(c.parent_span_id.is_none());
    }
    for bad in ["", "00f067aa0ba902b", "00f067aa0ba902bz"] {
        let c = trace_context(&record(Some(TRACE), Some(bad), None), 1, 2, 3);
        assert_eq!(c.trace_id, TRACE);
        assert!(c.parent_span_id.is_none());
    }
}

fn concat(parts: &[&str]) -> String {
    parts.iter().copied().collect()
}

#[test]
fn made_up_identifiers_are_not_zero() {
    let t = record(None, None, None);
    let c = trace_context(&t, 0, 0, 0);
    assert_eq!(c.trace_id, "00000000000000000000000000000001");
    assert_eq!(c.span_id, "0000000000000001");
    let c = trace_context(&t, 7, 0, u64::MAX);
    assert_eq!(c.trace_id, "00000000000000070000000000000000");
    assert_eq!(c.span_id, "ffffffffffffffff");
    let c = new_trace_context(&t);
    assert_eq!((c.trace_id.len(), c.span_id.len()), (32, 16));
    assert_ne!(c.trace_id, new_trace_context(&t).trace_id);
}

#[test]
fn metrics() {
    let mut s = state();
    s.providers[1].health.rate_limited_until = Some(10);
    let codes = |s: &AppState, now: u64| -> Vec<u64> {
        status_metrics(s, now).iter().map(|m| m.value).collect()
    };
    assert_eq!(codes(&s, 9), vec![0, 1]);
    assert_eq!(codes(&s, 10), vec![0, 0]);
    s.providers[1].health.circuit = CircuitState::Open { until: 10 };
    assert_eq!(codes(&s, 9), vec![0, 2]);
    s.providers[1].health.circuit = CircuitState::HalfOpen;
    assert_eq!(s.providers[1].health.status_code(10), 0);
    assert_eq!(
        metric_document(&status_metrics(&s, 9)[1]),
        br#"{"attributes":{"provider.name":"b"},"name":"llm_proxy.provider.status","value":1}"#
    );

    let mut t = record(None, None, None);
    let documents = |t: &Transaction| -> Vec<String> {
        let list = transaction_metrics(t);
        list.iter().map(|m| String::from_utf8(metric_document(m)).unwrap()).collect()
    };
    assert_eq!(
        documents(&t),
        vec![
            r#"{"attributes":{"client.endpoint":"/v1/chat/completions","provider.name":"groq"},"name":"llm_proxy.request.duration","value":5}"#,
            r#"{"attributes":{"model.name":"llama-4-scout","provider.name":"groq","type":"input"},"name":"llm_proxy.tokens.consumed","value":1420}"#,
            r#"{"attributes":{"model.name":"llama-4-scout","provider.name":"groq","type":"output"},"name":"llm_proxy.tokens.consumed","value":312}"#,
        ]
    );
    t.operation = "embeddings".to_string();
    assert!(documents(&t)[0].contains(r#""client.endpoint":"/v1/embeddings""#));
}

#[test]
fn where_the_collector_is() {
    assert_eq!(collector_url("http://h:4318", "traces"), "http://h:4318/v1/traces");
    assert_eq!(collector_url("http://h:4318//", "metrics"), "http://h:4318/v1/metrics");
    assert_eq!(collector_url("//", "traces"), "/v1/traces");
}

#[test]
fn providers_that_cannot_be_reached() {
    assert_eq!(reachability(&vec![]), Ok(()));
    assert_eq!(
        reachability(&vec!["a".to_string(), "b".to_string()]),
        Err("Providers that cannot be reached: a, b".to_string())
    );
}
