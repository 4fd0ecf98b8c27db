use casper_node_proxy::config::AppConfig;
use casper_node_proxy::handlers::{get_network, network_root, AppError, HttpResponse};
use casper_node_proxy::jsonrpc_proxy::{
    decide, is_supported_jsonrpc_method, jsonrpc_error_response, remove_peers, rpc_proxy,
    sanitize_info_get_status_response, sanitize_parsed, upstream_answered, upstream_response,
    RpcDecision, RpcStep,
};
use casper_node_proxy::metrics::AppMetrics;
use casper_node_proxy::models::NetworkConfig;
use casper_node_proxy::state::AppState;
use serde_json::Value;
use std::time::Duration;

const NETWORK_NAME: &str = "local";

fn metrics() -> AppMetrics {
    AppMetrics::new()
}

fn network(name: &str, rpc: &str) -> NetworkConfig {
    NetworkConfig {
        network_name: name.to_string(),
        chain_name: "test-chain".to_string(),
        rest: String::new(),
        sse: String::new(),
        rpc: rpc.to_string(),
        binary: "127.0.0.1:0".to_string(),
        gossip: String::new(),
    }
}

fn state() -> AppState<u32> {
    let config = AppConfig::from_env(&Vec::new());
    AppState::new(&config, vec![network(NETWORK_NAME, "http://127.0.0.1:11101/rpc")], metrics())
}

fn parsed(text: &str) -> Value {
    serde_json::from_str(text).expect("valid JSON")
}

fn answer(step: RpcStep) -> HttpResponse {
    match step {
        RpcStep::Answer(response) => response,
        RpcStep::Refuse(err) => panic!("refused: {}", err.message()),
        RpcStep::Forward { .. } => panic!("forwarded"),
    }
}

fn refusal(step: RpcStep) -> AppError {
    match step {
        RpcStep::Refuse(err) => err,
        _ => panic!("not refused"),
    }
}

fn body_text(response: &HttpResponse) -> String {
    String::from_utf8(response.body.clone()).expect("text body")
}

#[test]
fn jsonrpc_rejects_info_get_peers() {
    let mut state = state();
    let body = b"{\"jsonrpc\":\"2.0\",\"id\":1,\"method\":\"info_get_peers\"}";
    let response = answer(rpc_proxy(&mut state, NETWORK_NAME, body));
    assert_eq!(response.status, 200);
    let value = parsed(&body_text(&response));
    assert_eq!(
        value.get("error").and_then(|v| v.get("code")).and_then(|v| v.as_i64()),
        Some(-32601)
    );
    assert_eq!(
        value.get("error").and_then(|v| v.get("message")).and_then(|v| v.as_str()),
        Some("Method not found")
    );
    assert_eq!(value.get("id").and_then(|v| v.as_i64()), Some(1));
}

#[test]
fn jsonrpc_sanitizes_info_get_status_peers() {
    let mut state = state();
    let body = b"{\"jsonrpc\":\"2.0\",\"id\":1,\"method\":\"info_get_status\"}";
    let sanitize = match rpc_proxy(&mut state, NETWORK_NAME, body) {
        RpcStep::Forward { url, sanitize_status } => {
            assert_eq!(url, "http://127.0.0.1:11101/rpc");
            sanitize_status
        }
        _ => panic!("status should be forwarded"),
    };
    assert!(sanitize);
    let upstream = b"{\"jsonrpc\":\"2.0\",\"id\":1,\"result\":{\"api_version\":\"2.0.0\",\"peers\":[{\"node_id\":\"tls:1\",\"address\":\"1.2.3.4:35000\"}],\"uptime\":1.5}}";
    let response = upstream_response(
        sanitize,
        200,
        Some(b"application/json".to_vec()),
        Ok(upstream.to_vec()),
    )
    .expect("response");
    assert_eq!(response.status, 200);
    assert_eq!(response.content_type, Some(b"application/json".to_vec()));
    let value = parsed(&body_text(&response));
    let peers = value
        .get("result")
        .and_then(|result| result.get("peers"))
        .and_then(|peers| peers.as_array())
        .expect("response should contain result.peers array");
    assert!(peers.is_empty(), "expected sanitized peers array");
    assert_eq!(
        body_text(&response),
        "{\"jsonrpc\":\"2.0\",\"id\":1,\"result\":{\"api_version\":\"2.0.0\",\"peers\":[],\"uptime\":1.5}}"
    );
}

#[test]
fn proxy_rejects_batched_requests() {
    let mut state = state();
    let batch = "[{\"jsonrpc\":\"2.0\",\"id\":1,\"method\":\"info_get_status\"},\
                 {\"jsonrpc\":\"2.0\",\"id\":2,\"method\":\"info_get_peers\"},\
                 {\"jsonrpc\":\"2.0\",\"id\":3,\"method\":\"chain_get_state_root_hash\"},\
                 {\"jsonrpc\":\"2.0\",\"id\":4,\"method\":\"chain_get_block\"},\
                 {\"jsonrpc\":\"2.0\",\"id\":5,\"method\":\"state_get_auction_info\"}]";
    let err = refusal(rpc_proxy(&mut state, NETWORK_NAME, batch.as_bytes()));
    let response = err.into_response();
    assert_eq!(response.status, 400, "proxy RPC returned unexpected status");
    let value = parsed(&body_text(&response));
    assert_eq!(
        value.get("error").and_then(|v| v.as_str()),
        Some("JSON-RPC batching is not supported"),
        "expected batch rejection error"
    );
}

#[test]
fn unknown_network_is_not_found() {
    let mut state = state();
    let err = refusal(rpc_proxy(&mut state, "nowhere", b"{}"));
    assert_eq!(err.status(), 404);
    assert_eq!(err.message(), "unknown network: nowhere");
    let response = err.into_response();
    assert_eq!(response.content_type, Some(b"application/json".to_vec()));
    assert_eq!(body_text(&response), "{\"error\":\"unknown network: nowhere\"}");
    assert!(get_network(&state, "nowhere").is_err());
    assert!(network_root(&state, "nowhere").is_err());
}

#[test]
fn malformed_requests_are_answered_with_errors() {
    let mut state = state();
    let cases = [
        ("{", "{\"jsonrpc\":\"2.0\",\"id\":null,\"error\":{\"code\":-32700,\"message\":\"Parse error\"}}"),
        ("7", "{\"jsonrpc\":\"2.0\",\"id\":null,\"error\":{\"code\":-32600,\"message\":\"Invalid Request\"}}"),
        ("\"info_get_status\"", "{\"jsonrpc\":\"2.0\",\"id\":null,\"error\":{\"code\":-32600,\"message\":\"Invalid Request\"}}"),
        ("{\"id\":4}", "{\"jsonrpc\":\"2.0\",\"id\":null,\"error\":{\"code\":-32600,\"message\":\"Invalid Request\"}}"),
        ("{\"id\":4,\"method\":5}", "{\"jsonrpc\":\"2.0\",\"id\":null,\"error\":{\"code\":-32600,\"message\":\"Invalid Request\"}}"),
        ("{\"method\":\"nothing\"}", "{\"jsonrpc\":\"2.0\",\"id\":null,\"error\":{\"code\":-32601,\"message\":\"Method not found\"}}"),
        ("{\"method\":\"nothing\",\"id\":[1,\"a\"]}", "{\"jsonrpc\":\"2.0\",\"id\":[1,\"a\"],\"error\":{\"code\":-32601,\"message\":\"Method not found\"}}"),
    ];
    for (request, expected) in cases {
        let response = answer(rpc_proxy(&mut state, NETWORK_NAME, request.as_bytes()));
        assert_eq!(response.status, 200);
        assert_eq!(response.content_type, Some(b"application/json".to_vec()));
        assert_eq!(body_text(&response), expected);
    }
    assert!(!state.metrics.render().contains("jsonrpc_method_total{"));
}

#[test]
fn forwarded_methods_are_counted() {
    let mut state = state();
    let body = b"{\"jsonrpc\":\"2.0\",\"id\":1,\"method\":\"chain_get_block\"}";
    for _ in 0..2 {
        match rpc_proxy(&mut state, NETWORK_NAME, body) {
            RpcStep::Forward { sanitize_status, .. } => assert!(!sanitize_status),
            _ => panic!("should be forwarded"),
        }
    }
    let text = state.metrics.render();
    assert!(text.contains("method=\"chain_get_block\""));
    assert!(text.contains("network=\"local\""));
}

#[test]
fn supported_methods() {
    for method in [
        "account_put_deploy",
        "info_get_status",
        "query_balance_details",
        "state_get_trie",
        "speculative_exec_txn",
    ] {
        assert!(is_supported_jsonrpc_method(method));
    }
    for method in ["info_get_peers", "", "Info_get_status", "state_get_trie ", "rpc.discover"] {
        assert!(!is_supported_jsonrpc_method(method));
    }
}

#[test]
fn decisions_on_parsed_requests() {
    assert!(matches!(decide(Err("bad".to_string())), RpcDecision::Answer(_)));
    assert!(matches!(decide(Ok(Value::Null)), RpcDecision::Answer(_)));
    assert!(matches!(decide(Ok(parsed("[]"))), RpcDecision::Refuse(_)));
    match decide(Ok(parsed("{\"method\":\"state_get_item\"}"))) {
        RpcDecision::Forward { method, sanitize_status } => {
            assert_eq!(method, "state_get_item");
            assert!(!sanitize_status);
        }
        _ => panic!("should be forwarded"),
    }
}

#[test]
fn error_response_text() {
    let response = jsonrpc_error_response(Value::from("abc"), -7, "say \"no\"");
    assert_eq!(
        body_text(&response),
        "{\"jsonrpc\":\"2.0\",\"id\":\"abc\",\"error\":{\"code\":-7,\"message\":\"say \\\"no\\\"\"}}"
    );
}

#[test]
fn status_without_result_is_passed_on_as_it_came() {
    for body in ["{\"error\": 1}", "[1, 2]", "{\"result\": []}", "null", "{ \"result\" : null }"] {
        let sent = sanitize_info_get_status_response(body.as_bytes()).expect("JSON");
        assert_eq!(sent, body.as_bytes());
    }
    assert!(remove_peers(parsed("{\"result\":[]}")).is_none());
}

#[test]
fn status_without_peers_gets_an_empty_list() {
    let sanitized = remove_peers(parsed("{\"result\":{\"a\":1},\"id\":2}")).expect("result");
    assert_eq!(sanitized.to_string(), "{\"result\":{\"a\":1,\"peers\":[]},\"id\":2}");
    let again = remove_peers(sanitized.clone()).expect("result");
    assert_eq!(again, sanitized);
}

#[test]
fn status_that_is_no_json_is_a_bad_gateway() {
    let err = sanitize_info_get_status_response(b"nope").expect_err("no JSON");
    assert_eq!(err.status(), 502);
    assert_eq!(
        err.message(),
        "upstream RPC response is not JSON: expected ident at line 1 column 2"
    );
    let err = sanitize_parsed(Err("why".to_string()), b"").expect_err("no JSON");
    assert_eq!(err.message(), "upstream RPC response is not JSON: why");
}

#[test]
fn upstream_failures_are_bad_gateways() {
    let mut metrics = metrics();
    let waited = Duration::from_millis(5);
    let err = upstream_answered(&mut metrics, "local", waited, Err("refused".to_string()))
        .expect_err("failure");
    assert_eq!(err.status(), 502);
    assert_eq!(err.message(), "upstream RPC error: refused");
    let err = upstream_response(true, 200, None, Err("cut".to_string())).expect_err("failure");
    assert_eq!(err.status(), 502);
    assert_eq!(err.message(), "upstream body error: cut");
    let text = metrics.render();
    assert!(text.contains("rpc_upstream_errors_total{network=\"local\"} 1"));
}

#[test]
fn upstream_statuses_are_counted_when_they_are_no_success() {
    let mut metrics = metrics();
    for status in [200, 204, 299] {
        let r = upstream_answered(&mut metrics, "local", Duration::from_millis(1), Ok(status));
        assert_eq!(r.ok(), Some(status));
    }
    assert!(!metrics.render().contains("rpc_upstream_non_success_total{"));
    let r = upstream_answered(&mut metrics, "local", Duration::from_millis(1), Ok(300));
    assert_eq!(r.ok(), Some(300));
    let text = metrics.render();
    assert!(text.contains("rpc_upstream_non_success_total{network=\"local\",status=\"300\"} 1"));
    assert!(text.contains("rpc_upstream_duration_seconds_count{network=\"local\"} 4"));
}

#[test]
fn other_answers_keep_status_and_body() {
    let response =
        upstream_response(false, 503, None, Ok(b"not json".to_vec())).expect("response");
    assert_eq!(response.status, 503);
    assert_eq!(response.content_type, None);
    assert_eq!(response.body, b"not json");
}

#[test]
fn network_root_links() {
    let state = state();
    let response = network_root(&state, NETWORK_NAME).expect("network");
    assert_eq!(response.status, 200);
    assert_eq!(
        body_text(&response),
        "{\"network_name\":\"local\",\"chain_name\":\"test-chain\",\"rpc\":\"/local/rpc\",\
         \"events\":\"/local/events\",\"binary\":\"/local/binary\"}"
    );
}

#[test]
fn later_configuration_of_a_name_counts() {
    let config = AppConfig::from_env(&Vec::new());
    let networks =
        vec![network("a", "http://one"), network("b", "http://two"), network("a", "http://three")];
    let state: AppState<u32> = AppState::new(&config, networks, metrics());
    assert_eq!(state.networks.len(), 2);
    let a = get_network(&state, "a").expect("network");
    assert_eq!(state.networks[a].config.rpc, "http://three");
    let b = get_network(&state, "b").expect("network");
    assert_eq!(state.networks[b].config.rpc, "http://two");
    assert_eq!(state.binary_rate_limit_per_min, 60);
    assert_eq!(state.binary_rate_limit_burst, 20);
    assert_eq!(state.networks[a].binary_pool.max_connections(), 4);
    assert_eq!(state.networks[a].binary_pool.address(), "127.0.0.1:0");
    assert_eq!(state.networks[a].events.broadcast_capacity(), 256);
}

#[test]
fn error_statuses() {
    assert_eq!(AppError::not_found("x".to_string()).status(), 404);
    assert_eq!(AppError::bad_request("x".to_string()).status(), 400);
    assert_eq!(AppError::bad_gateway("x".to_string()).status(), 502);
    let err = AppError::new(418, "x\ny".to_string());
    assert_eq!(body_text(&err.into_response()), "{\"error\":\"x\\ny\"}");
}
