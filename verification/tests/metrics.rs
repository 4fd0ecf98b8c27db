use casper_node_proxy::metrics::{
    endpoint_from_path, network_from_path, track_http, AppMetrics, GLOBAL_NETWORK,
};
use std::time::Duration;

fn metrics() -> AppMetrics {
    AppMetrics::new()
}

#[test]
fn networks_of_paths() {
    assert_eq!(network_from_path("/devnet/rpc"), "devnet");
    assert_eq!(network_from_path("/devnet/"), "devnet");
    assert_eq!(network_from_path("devnet"), "devnet");
    assert_eq!(network_from_path("/"), GLOBAL_NETWORK);
    assert_eq!(network_from_path(""), GLOBAL_NETWORK);
}

#[test]
fn endpoints_of_paths() {
    assert_eq!(endpoint_from_path("/devnet/rpc"), "rpc");
    assert_eq!(endpoint_from_path("/devnet/events"), "events");
    assert_eq!(endpoint_from_path("/devnet/binary"), "binary");
    assert_eq!(endpoint_from_path("/devnet/"), "root");
}

#[test]
fn http_responses_are_counted() {
    let mut metrics = metrics();
    let took = Duration::from_millis(12);
    track_http(&mut metrics, "GET", "/devnet/rpc", 200, took, Some("1.2.3.4"));
    track_http(&mut metrics, "GET", "/devnet/rpc", 429, took, None);
    let text = metrics.render();
    assert!(text.contains("status=\"200\"} 1"));
    assert!(text.contains("status=\"429\"} 1"));
    assert!(text.contains("http_requests_by_ip_total{ip=\"1.2.3.4\",network=\"devnet\"} 1"));
    assert!(text.contains("http_429_total{endpoint=\"rpc\",network=\"devnet\"} 1"));
}

#[test]
fn event_metrics() {
    let mut metrics = metrics();
    metrics.increment_sse_ingest("n");
    metrics.increment_sse_backlog_dropped("n");
    metrics.increment_sse_reconnect("n");
    metrics.observe_sse_time_to_first_api_version("n", Duration::from_secs(1));
    metrics.set_sse_backlog_size("n", 17);
    metrics.set_db_pool_stats(10, 4);
    let text = metrics.render();
    assert!(text.contains("sse_ingest_total{network=\"n\"} 1"));
    assert!(text.contains("sse_backlog_dropped_total{network=\"n\"} 1"));
    assert!(text.contains("sse_reconnect_total{network=\"n\"} 1"));
    assert!(text.contains("sse_time_to_first_api_version_seconds_count{network=\"n\"} 1"));
    assert!(text.contains("sse_backlog_size{network=\"n\"} 17"));
    assert!(text.contains("db_pool_connections{network=\"global\",state="));
}

#[test]
fn guards_balance() {
    let mut metrics = metrics();
    let a = metrics.binary_connection_guard("n");
    let b = metrics.binary_connection_guard("n");
    assert!(metrics.render().contains("binary_connections{network=\"n\"} 2"));
    metrics.release(a);
    metrics.release(b);
    assert!(metrics.render().contains("binary_connections{network=\"n\"} 0"));
}

#[test]
fn nothing_written_renders_nothing() {
    assert_eq!(metrics().render(), "");
}

#[test]
fn written_families_render_in_name_order() {
    let mut metrics = metrics();
    metrics.increment_sse_ingest("devnet");
    metrics.increment_jsonrpc_method("devnet", "info_get_status");
    metrics.set_sse_backlog_size("devnet", 3);
    assert_eq!(
        metrics.render(),
        "# HELP jsonrpc_method_total JSON-RPC method call count\n\
         # TYPE jsonrpc_method_total counter\n\
         jsonrpc_method_total{method=\"info_get_status\",network=\"devnet\"} 1\n\
         # HELP sse_backlog_size Current SSE backlog size\n\
         # TYPE sse_backlog_size gauge\n\
         sse_backlog_size{network=\"devnet\"} 3\n\
         # HELP sse_ingest_total SSE events ingested from upstream\n\
         # TYPE sse_ingest_total counter\n\
         sse_ingest_total{network=\"devnet\"} 1\n"
    );
}

#[test]
fn histograms_render_their_type() {
    let mut metrics = metrics();
    metrics.observe_rpc_upstream_duration("devnet", Duration::from_millis(250));
    let text = metrics.render();
    assert!(text.starts_with(
        "# HELP rpc_upstream_duration_seconds Upstream JSON-RPC request duration in seconds\n\
         # TYPE rpc_upstream_duration_seconds histogram\n"
    ));
    assert!(text.contains("rpc_upstream_duration_seconds_count{network=\"devnet\"} 1\n"));
    assert_eq!(text.matches("# TYPE").count(), 1);
}

#[test]
fn durations_are_summed() {
    let mut metrics = metrics();
    metrics.observe_rpc_upstream_duration("devnet", Duration::from_millis(250));
    metrics.observe_rpc_upstream_duration("devnet", Duration::from_millis(500));
    metrics.observe_binary_queue_wait("devnet", Duration::from_secs(2));
    metrics.observe_sse_time_to_first_api_version("devnet", Duration::from_secs(3));
    metrics.observe_db_pool_wait("migrations", Duration::from_millis(125));
    track_http(&mut metrics, "POST", "/devnet/rpc", 200, Duration::from_millis(1500), None);
    let text = metrics.render();
    for line in [
        "rpc_upstream_duration_seconds_sum{network=\"devnet\"} 0.75\n",
        "rpc_upstream_duration_seconds_count{network=\"devnet\"} 2\n",
        "binary_queue_wait_seconds_sum{network=\"devnet\"} 2\n",
        "sse_time_to_first_api_version_seconds_sum{network=\"devnet\"} 3\n",
        "db_pool_wait_seconds_sum{network=\"global\",operation=\"migrations\"} 0.125\n",
        "http_request_duration_seconds_sum{endpoint=\"rpc\",method=\"POST\",network=\"devnet\"} 1.5\n",
    ] {
        assert!(text.contains(line), "{line}");
    }
    metrics.observe_rpc_upstream_duration("devnet", Duration::from_millis(250));
    assert!(metrics.render().contains("rpc_upstream_duration_seconds_sum{network=\"devnet\"} 1\n"));
}

#[test]
fn labels_that_read_alike_share_a_cell() {
    let mut metrics = metrics();
    metrics.increment_jsonrpc_method("ab", "c");
    metrics.increment_jsonrpc_method("a", "bc");
    let text = metrics.render();
    assert!(text.contains("jsonrpc_method_total{method=\"c\",network=\"ab\"} 2\n"));
    assert!(!text.contains("method=\"bc\""));
}

#[test]
fn metrics_are_independent() {
    let mut first = metrics();
    first.increment_sse_ingest("devnet");
    let second = metrics();
    assert_eq!(second.render(), "");
    first.increment_sse_ingest("devnet");
    assert_eq!(second.render(), "");
    assert!(first.render().contains("sse_ingest_total{network=\"devnet\"} 2\n"));
}

#[test]
fn samples_carry_their_label_values() {
    let mut metrics = metrics();
    metrics.increment_jsonrpc_method("dev\"net", "a\\b\nc");
    metrics.increment_binary_response("devnet", "ok");
    metrics.increment_binary_response("devnet", "error");
    let text = metrics.render();
    assert!(text.contains(
        "jsonrpc_method_total{method=\"a\\\\b\\nc\",network=\"dev\\\"net\"} 1\n"
    ));
    assert!(text.contains("binary_responses_total{network=\"devnet\",outcome=\"error\"} 1\n"));
    assert!(text.contains("binary_responses_total{network=\"devnet\",outcome=\"ok\"} 1\n"));
}
