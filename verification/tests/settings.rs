use casper_node_proxy::config::{env_var, parse_number, AppConfig};
use casper_node_proxy::db::{backend_from_url, load_networks, run_migrations, DbBackend};
use casper_node_proxy::metrics::AppMetrics;
use casper_node_proxy::models::{ConfigRow, NetworkConfig, NetworkRow};
use casper_node_proxy::rate_limit::{per_minute_to_period, rate_limit, RateLimit};
use casper_node_proxy::text::decimal_text;
use std::time::Duration;

fn metrics() -> AppMetrics {
    AppMetrics::new()
}

fn vars(pairs: &[(&str, &str)]) -> Vec<(String, String)> {
    pairs.iter().map(|(k, v)| (k.to_string(), v.to_string())).collect()
}

#[test]
fn defaults() {
    let config = AppConfig::from_env(&Vec::new());
    assert_eq!(config.database_url, "sqlite://./db.sqlite");
    assert_eq!(config.listen_addr, "0.0.0.0:8080");
    assert_eq!(config.metrics_listen_addr, "127.0.0.1:9090");
    assert_eq!(config.rate_limit_per_min, 60);
    assert_eq!(config.rate_limit_burst, 20);
    assert_eq!(config.sse_broadcast_capacity, 256);
    assert_eq!(config.sse_backlog_limit, 16384);
    assert_eq!(config.binary_pool_size, 4);
    assert_eq!(config.binary_rate_limit_per_min, 60);
    assert_eq!(config.binary_rate_limit_burst, 20);
}

#[test]
fn variables_override_defaults() {
    let config = AppConfig::from_env(&vars(&[
        ("DATABASE_URL", "postgres://db"),
        ("BIND_ADDR", "1.2.3.4:5"),
        ("METRICS_BIND_ADDR", "6.7.8.9:10"),
        ("RATE_LIMIT_PER_MIN", "7"),
        ("RATE_LIMIT_BURST", "+8"),
        ("SSE_BROADCAST_CAPACITY", "009"),
        ("SSE_BACKLOG_LIMIT", "10"),
        ("BINARY_POOL_SIZE", "11"),
        ("BINARY_RATE_LIMIT_BURST", "12"),
    ]));
    assert_eq!(config.database_url, "postgres://db");
    assert_eq!(config.listen_addr, "1.2.3.4:5");
    assert_eq!(config.metrics_listen_addr, "6.7.8.9:10");
    assert_eq!(config.rate_limit_per_min, 7);
    assert_eq!(config.rate_limit_burst, 8);
    assert_eq!(config.sse_broadcast_capacity, 9);
    assert_eq!(config.sse_backlog_limit, 10);
    assert_eq!(config.binary_pool_size, 11);
    assert_eq!(config.binary_rate_limit_per_min, 7);
    assert_eq!(config.binary_rate_limit_burst, 12);
}

#[test]
fn variables_that_are_no_numbers_count_as_unset() {
    for text in ["", "+", "-1", " 5", "5 ", "4294967296", "1e3", "++1", "\u{663}"] {
        let config = AppConfig::from_env(&vars(&[("RATE_LIMIT_PER_MIN", text)]));
        assert_eq!(config.rate_limit_per_min, 60, "{text}");
        assert!(text.parse::<u32>().is_err());
    }
}

#[test]
fn numbers_are_read_as_the_standard_library_reads_them() {
    for text in [
        "0", "00", "+0", "1", "+12", "4294967295", "4294967296", "42949672950", "-0", "+-1", "a",
        "18446744073709551615", "18446744073709551616", "99999999999999999999",
    ] {
        assert_eq!(
            parse_number(text, u32::MAX as u64).map(|n| n as u32),
            text.parse::<u32>().ok(),
            "{text}"
        );
        assert_eq!(parse_number(text, u64::MAX), text.parse::<u64>().ok(), "{text}");
    }
}

#[test]
fn numbers_written_in_decimal_are_read_back() {
    for n in [0, 7, 10, 99, 100, 65535, u32::MAX as u64, u64::MAX] {
        assert_eq!(decimal_text(n), n.to_string());
        assert_eq!(parse_number(&decimal_text(n), u64::MAX), Some(n));
    }
}

#[test]
fn first_variable_of_a_name_counts() {
    let vars = vars(&[("A", "1"), ("B", "2"), ("A", "3")]);
    assert_eq!(env_var(&vars, "A"), Some(&"1".to_string()));
    assert_eq!(env_var(&vars, "B"), Some(&"2".to_string()));
    assert_eq!(env_var(&vars, "C"), None);
}

#[test]
fn periods() {
    assert_eq!(per_minute_to_period(0), 60000);
    assert_eq!(per_minute_to_period(1), 60000);
    assert_eq!(per_minute_to_period(7), 8571);
    assert_eq!(per_minute_to_period(60), 1000);
    assert_eq!(per_minute_to_period(60000), 1);
    assert_eq!(per_minute_to_period(60001), 1);
    assert_eq!(per_minute_to_period(u32::MAX), 1);
    assert_eq!(rate_limit(60, 0), RateLimit { period_millis: 1000, burst_size: 1 });
    assert_eq!(rate_limit(0, 5), RateLimit { period_millis: 60000, burst_size: 5 });
}

#[test]
fn rate_limit_rejects_excess_requests() {
    let limit = rate_limit(1, 1);
    let burst = std::num::NonZeroU32::new(limit.burst_size).expect("burst");
    let quota = governor::Quota::with_period(Duration::from_millis(limit.period_millis))
        .expect("period")
        .allow_burst(burst);
    let limiter = governor::RateLimiter::direct(quota);
    assert!(limiter.check().is_ok(), "first request should succeed");
    assert!(limiter.check().is_err(), "second request should be rejected");
}

#[test]
fn databases() {
    assert_eq!(backend_from_url("postgres://host/db"), Ok(DbBackend::Postgres));
    assert_eq!(backend_from_url("postgresql://host/db"), Ok(DbBackend::Postgres));
    assert_eq!(backend_from_url("sqlite://./db.sqlite"), Ok(DbBackend::Sqlite));
    assert_eq!(backend_from_url("./db.sqlite"), Ok(DbBackend::Sqlite));
    assert_eq!(backend_from_url(""), Ok(DbBackend::Sqlite));
    assert_eq!(backend_from_url("a:/b"), Ok(DbBackend::Sqlite));
    assert_eq!(
        backend_from_url("mysql://host"),
        Err("unsupported DATABASE_URL scheme: mysql".to_string())
    );
    assert_eq!(
        backend_from_url("://sqlite://x"),
        Err("unsupported DATABASE_URL scheme: ".to_string())
    );
    assert_eq!(
        backend_from_url("SQLITE://x"),
        Err("unsupported DATABASE_URL scheme: SQLITE".to_string())
    );
}

fn rows(name: &str) -> (NetworkRow, ConfigRow) {
    (
        NetworkRow { network_name: name.to_string(), chain_name: format!("chain-{name}") },
        ConfigRow {
            network_name: "other".to_string(),
            rest: "rest".to_string(),
            sse: "sse".to_string(),
            rpc: "rpc".to_string(),
            binary: "binary".to_string(),
            gossip: "gossip".to_string(),
        },
    )
}

#[test]
fn rows_make_configurations() {
    let (network, config) = rows("devnet");
    let merged = NetworkConfig::from_rows(network, config);
    assert_eq!(merged.network_name, "devnet");
    assert_eq!(merged.chain_name, "chain-devnet");
    assert_eq!(merged.rest, "rest");
    assert_eq!(merged.sse, "sse");
    assert_eq!(merged.rpc, "rpc");
    assert_eq!(merged.binary, "binary");
    assert_eq!(merged.gossip, "gossip");
    assert_eq!(merged.clone().network_name, "devnet");
}

#[test]
fn networks_are_loaded_in_order() {
    let mut metrics = metrics();
    let loaded = load_networks(
        &mut metrics,
        Duration::from_millis(3),
        Ok(vec![rows("a"), rows("b")]),
    )
    .expect("rows");
    let names: Vec<&str> = loaded.iter().map(|config| config.network_name.as_str()).collect();
    assert_eq!(names, vec!["a", "b"]);
    let failed = load_networks(&mut metrics, Duration::from_millis(3), Err("gone".to_string()));
    assert_eq!(failed.err(), Some("gone".to_string()));
    let text = metrics.render();
    assert!(text.contains("db_pool_wait_seconds_count{network=\"global\",operation=\"load_networks\"} 2"));
}

#[test]
fn migrations_are_counted() {
    let mut metrics = metrics();
    assert_eq!(run_migrations(&mut metrics, Some(Duration::from_millis(1)), Ok(())), Ok(()));
    assert_eq!(
        run_migrations(&mut metrics, None, Err("no pool".to_string())),
        Err("no pool".to_string())
    );
    let text = metrics.render();
    assert!(text.contains("db_pool_wait_seconds_count{network=\"global\",operation=\"migrations\"} 1"));
    assert!(text.contains("db_migrations_total{network=\"global\",outcome=\"success\"} 1"));
    assert!(text.contains("db_migrations_total{network=\"global\",outcome=\"failure\"} 1"));
}
