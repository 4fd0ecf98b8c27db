//! Prometheus metrics for the proxy service.

use std::time::Duration;
use vstd::prelude::*;
use vstd::string::*;

use crate::catalog;
use crate::families;
use crate::families::{Counter, FamilyDesc, FamilyKind, Gauge, Histogram, MetricStore};
use crate::text;
use crate::text::{chars_of, decimal_text, same_text};

verus! {

/// The network label of what belongs to no network.
pub const GLOBAL_NETWORK: &'static str = "global";

/// The metrics of the proxy.
pub struct AppMetrics {
    store: MetricStore,
}

// The places of the families among the counters, the gauges and the histograms.
const HTTP_REQUESTS_TOTAL: usize = 0;

const HTTP_REQUESTS_BY_IP_TOTAL: usize = 1;

const HTTP_429_TOTAL: usize = 2;

const JSONRPC_METHOD_TOTAL: usize = 3;

const RPC_UPSTREAM_ERRORS_TOTAL: usize = 4;

const RPC_UPSTREAM_NON_SUCCESS_TOTAL: usize = 5;

const SSE_INGEST_TOTAL: usize = 6;

const SSE_BACKLOG_DROPPED_TOTAL: usize = 7;

const SSE_RECONNECT_TOTAL: usize = 8;

const BINARY_REQUESTS_TOTAL: usize = 9;

const BINARY_RESPONSES_TOTAL: usize = 10;

const DB_MIGRATIONS_TOTAL: usize = 11;

const SSE_BACKLOG_SIZE: usize = 0;

const SSE_CONNECTIONS: usize = 1;

const BINARY_CONNECTIONS: usize = 2;

const BINARY_INFLIGHT_REQUESTS: usize = 3;

const DB_POOL_CONNECTIONS: usize = 4;

const HTTP_REQUEST_DURATION_SECONDS: usize = 0;

const RPC_UPSTREAM_DURATION_SECONDS: usize = 1;

const SSE_TIME_TO_FIRST_API_VERSION_SECONDS: usize = 2;

const BINARY_QUEUE_WAIT_SECONDS: usize = 3;

const DB_POOL_WAIT_SECONDS: usize = 4;

/// The cells of every metric family.
#[verifier::ext_equal]
pub struct MetricsView {
    pub http_requests_total: Map<u64, Counter>,
    pub http_requests_by_ip_total: Map<u64, Counter>,
    pub http_request_duration_seconds: Map<u64, Histogram>,
    pub http_429_total: Map<u64, Counter>,
    pub jsonrpc_method_total: Map<u64, Counter>,
    pub rpc_upstream_duration_seconds: Map<u64, Histogram>,
    pub rpc_upstream_errors_total: Map<u64, Counter>,
    pub rpc_upstream_non_success_total: Map<u64, Counter>,
    pub sse_ingest_total: Map<u64, Counter>,
    pub sse_backlog_size: Map<u64, Gauge>,
    pub sse_backlog_dropped_total: Map<u64, Counter>,
    pub sse_reconnect_total: Map<u64, Counter>,
    pub sse_time_to_first_api_version_seconds: Map<u64, Histogram>,
    pub sse_connections: Map<u64, Gauge>,
    pub binary_requests_total: Map<u64, Counter>,
    pub binary_responses_total: Map<u64, Counter>,
    pub binary_connections: Map<u64, Gauge>,
    pub binary_inflight_requests: Map<u64, Gauge>,
    pub binary_queue_wait_seconds: Map<u64, Histogram>,
    pub db_pool_connections: Map<u64, Gauge>,
    pub db_migrations_total: Map<u64, Counter>,
    pub db_pool_wait_seconds: Map<u64, Histogram>,
}

/// Metrics to which nothing was written yet.
pub open spec fn no_metrics() -> MetricsView {
    MetricsView {
        http_requests_total: families::no_counters(),
        http_requests_by_ip_total: families::no_counters(),
        http_request_duration_seconds: families::no_histograms(),
        http_429_total: families::no_counters(),
        jsonrpc_method_total: families::no_counters(),
        rpc_upstream_duration_seconds: families::no_histograms(),
        rpc_upstream_errors_total: families::no_counters(),
        rpc_upstream_non_success_total: families::no_counters(),
        sse_ingest_total: families::no_counters(),
        sse_backlog_size: families::no_gauges(),
        sse_backlog_dropped_total: families::no_counters(),
        sse_reconnect_total: families::no_counters(),
        sse_time_to_first_api_version_seconds: families::no_histograms(),
        sse_connections: families::no_gauges(),
        binary_requests_total: families::no_counters(),
        binary_responses_total: families::no_counters(),
        binary_connections: families::no_gauges(),
        binary_inflight_requests: families::no_gauges(),
        binary_queue_wait_seconds: families::no_histograms(),
        db_pool_connections: families::no_gauges(),
        db_migrations_total: families::no_counters(),
        db_pool_wait_seconds: families::no_histograms(),
    }
}

impl View for AppMetrics {
    type V = MetricsView;

    closed spec fn view(&self) -> MetricsView {
        MetricsView {
            http_requests_total: families::counter_cells(self.store)[HTTP_REQUESTS_TOTAL as int],
            http_requests_by_ip_total: families::counter_cells(
                self.store,
            )[HTTP_REQUESTS_BY_IP_TOTAL as int],
            http_request_duration_seconds: families::histogram_cells(
                self.store,
            )[HTTP_REQUEST_DURATION_SECONDS as int],
            http_429_total: families::counter_cells(self.store)[HTTP_429_TOTAL as int],
            jsonrpc_method_total: families::counter_cells(self.store)[JSONRPC_METHOD_TOTAL as int],
            rpc_upstream_duration_seconds: families::histogram_cells(
                self.store,
            )[RPC_UPSTREAM_DURATION_SECONDS as int],
            rpc_upstream_errors_total: families::counter_cells(
                self.store,
            )[RPC_UPSTREAM_ERRORS_TOTAL as int],
            rpc_upstream_non_success_total: families::counter_cells(
                self.store,
            )[RPC_UPSTREAM_NON_SUCCESS_TOTAL as int],
            sse_ingest_total: families::counter_cells(self.store)[SSE_INGEST_TOTAL as int],
            sse_backlog_size: families::gauge_cells(self.store)[SSE_BACKLOG_SIZE as int],
            sse_backlog_dropped_total: families::counter_cells(
                self.store,
            )[SSE_BACKLOG_DROPPED_TOTAL as int],
            sse_reconnect_total: families::counter_cells(self.store)[SSE_RECONNECT_TOTAL as int],
            sse_time_to_first_api_version_seconds: families::histogram_cells(
                self.store,
            )[SSE_TIME_TO_FIRST_API_VERSION_SECONDS as int],
            sse_connections: families::gauge_cells(self.store)[SSE_CONNECTIONS as int],
            binary_requests_total: families::counter_cells(
                self.store,
            )[BINARY_REQUESTS_TOTAL as int],
            binary_responses_total: families::counter_cells(
                self.store,
            )[BINARY_RESPONSES_TOTAL as int],
            binary_connections: families::gauge_cells(self.store)[BINARY_CONNECTIONS as int],
            binary_inflight_requests: families::gauge_cells(
                self.store,
            )[BINARY_INFLIGHT_REQUESTS as int],
            binary_queue_wait_seconds: families::histogram_cells(
                self.store,
            )[BINARY_QUEUE_WAIT_SECONDS as int],
            db_pool_connections: families::gauge_cells(self.store)[DB_POOL_CONNECTIONS as int],
            db_migrations_total: families::counter_cells(self.store)[DB_MIGRATIONS_TOTAL as int],
            db_pool_wait_seconds: families::histogram_cells(
                self.store,
            )[DB_POOL_WAIT_SECONDS as int],
        }
    }
}

/// No family of a store has a cell.
spec fn fresh(store: MetricStore) -> bool {
    &&& families::counter_cells(store).len() == families::counter_descs(store).len()
    &&& families::gauge_cells(store).len() == families::gauge_descs(store).len()
    &&& families::histogram_cells(store).len() == families::histogram_descs(store).len()
    &&& forall|i: int|
        0 <= i < families::counter_descs(store).len() ==> #[trigger] families::counter_cells(
            store,
        )[i] == families::no_counters()
    &&& forall|i: int|
        0 <= i < families::gauge_descs(store).len() ==> #[trigger] families::gauge_cells(store)[i]
            == families::no_gauges()
    &&& forall|i: int|
        0 <= i < families::histogram_descs(store).len() ==> #[trigger] families::histogram_cells(
            store,
        )[i] == families::no_histograms()
}

/// A store holds the first families of each kind, and nothing was written to
/// them.
spec fn registered(store: MetricStore, counters: int, gauges: int, histograms: int) -> bool {
    &&& families::counter_descs(store) == catalog::counter_families().take(counters)
    &&& families::gauge_descs(store) == catalog::gauge_families().take(gauges)
    &&& families::histogram_descs(store) == catalog::histogram_families().take(histograms)
    &&& fresh(store)
}

/// A registry with the first families takes the next.
proof fn lemma_next_family(held: Seq<FamilyDesc>, k: int)
    requires
        0 <= k < catalog::metric_families().len(),
        held == catalog::metric_families().take(k),
    ensures
        families::valid_family(
            catalog::metric_families()[k].name,
            catalog::metric_families()[k].help,
            catalog::metric_families()[k].labels,
        ),
        !catalog::metric_families()[k].labels.contains("le"@),
        families::hash_is_free(held, catalog::metric_families()[k].name),
{
    catalog::law_families_are_allowed(k);
    assert forall|i: int| 0 <= i < held.len() implies families::family_hash(
        #[trigger] held[i].name,
    ) != families::family_hash(catalog::metric_families()[k].name) by {
        catalog::law_names_hash_apart(i, k);
    }
}

/// Registers one of the counter families.
fn register_counter(
    store: &mut MetricStore,
    name: &str,
    help: &str,
    labels: &Vec<&str>,
    Ghost(k): Ghost<int>,
)
    requires
        0 <= k < 12,
        registered(*old(store), k, 0, 0),
        families::family(
            FamilyKind::Counter,
            name@,
            help@,
            families::texts(labels@),
        ) == catalog::counter_families()[k],
    ensures
        registered(*final(store), k + 1, 0, 0),
{
    let ghost held = families::held(*store);
    proof {
        assert(catalog::metric_families()[k] == catalog::counter_families()[k]);
        assert(held =~= catalog::metric_families().take(k));
        lemma_next_family(held, k);
    }
    let r = store.register_counter_vec(name, help, labels);
    assert(families::hash_is_free(held, name@));
    assert(r is Ok);
    assert(families::counter_descs(*store) =~= catalog::counter_families().take(k + 1));
}

/// Registers one of the gauge families.
fn register_gauge(
    store: &mut MetricStore,
    name: &str,
    help: &str,
    labels: &Vec<&str>,
    Ghost(k): Ghost<int>,
)
    requires
        0 <= k < 5,
        registered(*old(store), 12, k, 0),
        families::family(
            FamilyKind::Gauge,
            name@,
            help@,
            families::texts(labels@),
        ) == catalog::gauge_families()[k],
    ensures
        registered(*final(store), 12, k + 1, 0),
{
    let ghost held = families::held(*store);
    proof {
        assert(catalog::metric_families()[12 + k] == catalog::gauge_families()[k]);
        assert(held =~= catalog::metric_families().take(12 + k));
        lemma_next_family(held, 12 + k);
    }
    let r = store.register_gauge_vec(name, help, labels);
    assert(families::hash_is_free(held, name@));
    assert(r is Ok);
    assert(families::gauge_descs(*store) =~= catalog::gauge_families().take(k + 1));
}

/// Registers one of the histogram families.
fn register_histogram(
    store: &mut MetricStore,
    name: &str,
    help: &str,
    labels: &Vec<&str>,
    Ghost(k): Ghost<int>,
)
    requires
        0 <= k < 5,
        registered(*old(store), 12, 5, k),
        families::family(
            FamilyKind::Histogram,
            name@,
            help@,
            families::texts(labels@),
        ) == catalog::histogram_families()[k],
    ensures
        registered(*final(store), 12, 5, k + 1),
{
    let ghost held = families::held(*store);
    proof {
        assert(catalog::metric_families()[17 + k] == catalog::histogram_families()[k]);
        assert(held =~= catalog::metric_families().take(17 + k));
        lemma_next_family(held, 17 + k);
    }
    let r = store.register_histogram_vec(name, help, labels);
    assert(families::hash_is_free(held, name@));
    assert(r is Ok);
    assert(families::histogram_descs(*store) =~= catalog::histogram_families().take(k + 1));
}

/// Registers the counter families.
fn register_counters(store: &mut MetricStore)
    requires
        registered(*old(store), 0, 0, 0),
    ensures
        registered(*final(store), 12, 0, 0),
{
    let labels: Vec<&str> = vec!["network", "method", "endpoint", "status"];
    assert(families::texts(labels@) =~= seq!["network"@, "method"@, "endpoint"@, "status"@]);
    register_counter(
        store,
        "http_requests_total",
        "HTTP responses by status",
        &labels,
        Ghost(0),
    );
    let labels: Vec<&str> = vec!["network", "ip"];
    assert(families::texts(labels@) =~= seq!["network"@, "ip"@]);
    register_counter(
        store,
        "http_requests_by_ip_total",
        "HTTP requests by client IP",
        &labels,
        Ghost(1),
    );
    let labels: Vec<&str> = vec!["network", "endpoint"];
    assert(families::texts(labels@) =~= seq!["network"@, "endpoint"@]);
    register_counter(
        store,
        "http_429_total",
        "HTTP 429 responses",
        &labels,
        Ghost(2),
    );
    let labels: Vec<&str> = vec!["network", "method"];
    assert(families::texts(labels@) =~= seq!["network"@, "method"@]);
    register_counter(
        store,
        "jsonrpc_method_total",
        "JSON-RPC method call count",
        &labels,
        Ghost(3),
    );
    let labels: Vec<&str> = vec!["network"];
    assert(families::texts(labels@) =~= seq!["network"@]);
    register_counter(
        store,
        "rpc_upstream_errors_total",
        "Upstream JSON-RPC transport errors",
        &labels,
        Ghost(4),
    );
    let labels: Vec<&str> = vec!["network", "status"];
    assert(families::texts(labels@) =~= seq!["network"@, "status"@]);
    register_counter(
        store,
        "rpc_upstream_non_success_total",
        "Upstream JSON-RPC non-success HTTP responses",
        &labels,
        Ghost(5),
    );
    let labels: Vec<&str> = vec!["network"];
    assert(families::texts(labels@) =~= seq!["network"@]);
    register_counter(
        store,
        "sse_ingest_total",
        "SSE events ingested from upstream",
        &labels,
        Ghost(6),
    );
    let labels: Vec<&str> = vec!["network"];
    assert(families::texts(labels@) =~= seq!["network"@]);
    register_counter(
        store,
        "sse_backlog_dropped_total",
        "SSE backlog events dropped due to limits",
        &labels,
        Ghost(7),
    );
    let labels: Vec<&str> = vec!["network"];
    assert(families::texts(labels@) =~= seq!["network"@]);
    register_counter(
        store,
        "sse_reconnect_total",
        "SSE listener reconnects",
        &labels,
        Ghost(8),
    );
    let labels: Vec<&str> = vec!["network"];
    assert(families::texts(labels@) =~= seq!["network"@]);
    register_counter(
        store,
        "binary_requests_total",
        "Binary port requests received",
        &labels,
        Ghost(9),
    );
    let labels: Vec<&str> = vec!["network", "outcome"];
    assert(families::texts(labels@) =~= seq!["network"@, "outcome"@]);
    register_counter(
        store,
        "binary_responses_total",
        "Binary port responses returned",
        &labels,
        Ghost(10),
    );
    let labels: Vec<&str> = vec!["network", "outcome"];
    assert(families::texts(labels@) =~= seq!["network"@, "outcome"@]);
    register_counter(
        store,
        "db_migrations_total",
        "Database migrations outcomes",
        &labels,
        Ghost(11),
    );
}

/// Registers the gauge families.
fn register_gauges(store: &mut MetricStore)
    requires
        registered(*old(store), 12, 0, 0),
    ensures
        registered(*final(store), 12, 5, 0),
{
    let labels: Vec<&str> = vec!["network"];
    assert(families::texts(labels@) =~= seq!["network"@]);
    register_gauge(
        store,
        "sse_backlog_size",
        "Current SSE backlog size",
        &labels,
        Ghost(0),
    );
    let labels: Vec<&str> = vec!["network"];
    assert(families::texts(labels@) =~= seq!["network"@]);
    register_gauge(
        store,
        "sse_connections",
        "Active SSE/WS event stream connections",
        &labels,
        Ghost(1),
    );
    let labels: Vec<&str> = vec!["network"];
    assert(families::texts(labels@) =~= seq!["network"@]);
    register_gauge(
        store,
        "binary_connections",
        "Active binary websocket connections",
        &labels,
        Ghost(2),
    );
    let labels: Vec<&str> = vec!["network"];
    assert(families::texts(labels@) =~= seq!["network"@]);
    register_gauge(
        store,
        "binary_inflight_requests",
        "Binary port requests in flight",
        &labels,
        Ghost(3),
    );
    let labels: Vec<&str> = vec!["network", "state"];
    assert(families::texts(labels@) =~= seq!["network"@, "state"@]);
    register_gauge(
        store,
        "db_pool_connections",
        "Database pool connection counts",
        &labels,
        Ghost(4),
    );
}

/// Registers the histogram families.
fn register_histograms(store: &mut MetricStore)
    requires
        registered(*old(store), 12, 5, 0),
    ensures
        registered(*final(store), 12, 5, 5),
{
    let labels: Vec<&str> = vec!["network", "method", "endpoint"];
    assert(families::texts(labels@) =~= seq!["network"@, "method"@, "endpoint"@]);
    register_histogram(
        store,
        "http_request_duration_seconds",
        "HTTP request duration in seconds",
        &labels,
        Ghost(0),
    );
    let labels: Vec<&str> = vec!["network"];
    assert(families::texts(labels@) =~= seq!["network"@]);
    register_histogram(
        store,
        "rpc_upstream_duration_seconds",
        "Upstream JSON-RPC request duration in seconds",
        &labels,
        Ghost(1),
    );
    let labels: Vec<&str> = vec!["network"];
    assert(families::texts(labels@) =~= seq!["network"@]);
    register_histogram(
        store,
        "sse_time_to_first_api_version_seconds",
        "Time to first ApiVersion event after connecting",
        &labels,
        Ghost(2),
    );
    let labels: Vec<&str> = vec!["network"];
    assert(families::texts(labels@) =~= seq!["network"@]);
    register_histogram(
        store,
        "binary_queue_wait_seconds",
        "Time waiting for a binary pool connection",
        &labels,
        Ghost(3),
    );
    let labels: Vec<&str> = vec!["network", "operation"];
    assert(families::texts(labels@) =~= seq!["network"@, "operation"@]);
    register_histogram(
        store,
        "db_pool_wait_seconds",
        "Database connection checkout wait time in seconds",
        &labels,
        Ghost(4),
    );
}

impl AppMetrics {
    /// The families of the proxy are registered.
    pub closed spec fn wf(self) -> bool {
        &&& families::counter_descs(self.store) == catalog::counter_families()
        &&& families::counter_cells(self.store).len() == catalog::counter_families().len()
        &&& families::gauge_descs(self.store) == catalog::gauge_families()
        &&& families::gauge_cells(self.store).len() == catalog::gauge_families().len()
        &&& families::histogram_descs(self.store) == catalog::histogram_families()
        &&& families::histogram_cells(self.store).len() == catalog::histogram_families().len()
    }

    /// The families that the metrics' registry holds.
    pub closed spec fn families(self) -> Seq<FamilyDesc> {
        families::held(self.store)
    }

    /// The metrics in the Prometheus text format.
    pub closed spec fn text(self) -> Seq<char> {
        families::store_text(self.store)
    }

    /// Registers every metric family. Nothing was written to them yet.
    pub fn new() -> (r: Self)
        ensures
            r.wf(),
            r@ == no_metrics(),
            r.families() == catalog::metric_families(),
    {
        let mut store = MetricStore::new();
        assert(families::counter_descs(store) =~= catalog::counter_families().take(0));
        assert(families::gauge_descs(store) =~= catalog::gauge_families().take(0));
        assert(families::histogram_descs(store) =~= catalog::histogram_families().take(0));
        register_counters(&mut store);
        register_gauges(&mut store);
        register_histograms(&mut store);
        assert(catalog::counter_families().take(12) =~= catalog::counter_families());
        assert(catalog::gauge_families().take(5) =~= catalog::gauge_families());
        assert(catalog::histogram_families().take(5) =~= catalog::histogram_families());
        let metrics = AppMetrics { store };
        assert(metrics@ =~= no_metrics());
        metrics
    }
}

impl MetricsView {
    /// What there are samples of: each family with the label values of its cells.
    pub open spec fn written(self) -> Set<(FamilyDesc, Seq<Seq<char>>)> {
        families::counter_samples(catalog::counter_families(), self.counters())
            + families::gauge_samples(catalog::gauge_families(), self.gauges())
            + families::histogram_samples(catalog::histogram_families(), self.histograms())
    }

    /// The cells of the counter families.
    pub open spec fn counters(self) -> Seq<Map<u64, Counter>> {
        seq![
            self.http_requests_total,
            self.http_requests_by_ip_total,
            self.http_429_total,
            self.jsonrpc_method_total,
            self.rpc_upstream_errors_total,
            self.rpc_upstream_non_success_total,
            self.sse_ingest_total,
            self.sse_backlog_dropped_total,
            self.sse_reconnect_total,
            self.binary_requests_total,
            self.binary_responses_total,
            self.db_migrations_total,
        ]
    }

    /// The cells of the gauge families.
    pub open spec fn gauges(self) -> Seq<Map<u64, Gauge>> {
        seq![
            self.sse_backlog_size,
            self.sse_connections,
            self.binary_connections,
            self.binary_inflight_requests,
            self.db_pool_connections,
        ]
    }

    /// The cells of the histogram families.
    pub open spec fn histograms(self) -> Seq<Map<u64, Histogram>> {
        seq![
            self.http_request_duration_seconds,
            self.rpc_upstream_duration_seconds,
            self.sse_time_to_first_api_version_seconds,
            self.binary_queue_wait_seconds,
            self.db_pool_wait_seconds,
        ]
    }

    /// One more call of a JSON-RPC method.
    pub open spec fn jsonrpc_method_counted(
        self,
        network: Seq<char>,
        method: Seq<char>,
    ) -> MetricsView {
        MetricsView {
            jsonrpc_method_total: families::counted(
                self.jsonrpc_method_total,
                seq![network, method],
            ),
            ..self
        }
    }

    /// One more timing of an upstream JSON-RPC request.
    pub open spec fn rpc_upstream_timed(
        self,
        network: Seq<char>,
        duration: Duration,
    ) -> MetricsView {
        MetricsView {
            rpc_upstream_duration_seconds: families::timed(
                self.rpc_upstream_duration_seconds,
                seq![network],
                duration,
            ),
            ..self
        }
    }

    /// One more upstream JSON-RPC transport error.
    pub open spec fn rpc_upstream_error_counted(self, network: Seq<char>) -> MetricsView {
        MetricsView {
            rpc_upstream_errors_total: families::counted(
                self.rpc_upstream_errors_total,
                seq![network],
            ),
            ..self
        }
    }

    /// One more event ingested from upstream.
    pub open spec fn sse_ingest_counted(self, network: Seq<char>) -> MetricsView {
        MetricsView {
            sse_ingest_total: families::counted(
                self.sse_ingest_total,
                seq![network],
            ),
            ..self
        }
    }

    /// One more event dropped from the backlog.
    pub open spec fn sse_backlog_dropped_counted(self, network: Seq<char>) -> MetricsView {
        MetricsView {
            sse_backlog_dropped_total: families::counted(
                self.sse_backlog_dropped_total,
                seq![network],
            ),
            ..self
        }
    }

    /// One more reconnect of the event listener.
    pub open spec fn sse_reconnect_counted(self, network: Seq<char>) -> MetricsView {
        MetricsView {
            sse_reconnect_total: families::counted(
                self.sse_reconnect_total,
                seq![network],
            ),
            ..self
        }
    }

    /// One more timing of a first ApiVersion event.
    pub open spec fn sse_api_version_timed(
        self,
        network: Seq<char>,
        duration: Duration,
    ) -> MetricsView {
        MetricsView {
            sse_time_to_first_api_version_seconds: families::timed(
                self.sse_time_to_first_api_version_seconds,
                seq![network],
                duration,
            ),
            ..self
        }
    }

    /// One more binary-port request.
    pub open spec fn binary_request_counted(self, network: Seq<char>) -> MetricsView {
        MetricsView {
            binary_requests_total: families::counted(
                self.binary_requests_total,
                seq![network],
            ),
            ..self
        }
    }

    /// One more binary-port response under its outcome.
    pub open spec fn binary_response_counted(
        self,
        network: Seq<char>,
        outcome: Seq<char>,
    ) -> MetricsView {
        MetricsView {
            binary_responses_total: families::counted(
                self.binary_responses_total,
                seq![network, outcome],
            ),
            ..self
        }
    }

    /// One more timing of the wait for a connection.
    pub open spec fn binary_queue_timed(
        self,
        network: Seq<char>,
        duration: Duration,
    ) -> MetricsView {
        MetricsView {
            binary_queue_wait_seconds: families::timed(
                self.binary_queue_wait_seconds,
                seq![network],
                duration,
            ),
            ..self
        }
    }

    /// One more database migration under its outcome.
    pub open spec fn db_migration_counted(self, outcome: Seq<char>) -> MetricsView {
        MetricsView {
            db_migrations_total: families::counted(
                self.db_migrations_total,
                seq![GLOBAL_NETWORK@, outcome],
            ),
            ..self
        }
    }

    /// One more timing of a database connection checkout.
    pub open spec fn db_pool_timed(
        self,
        operation: Seq<char>,
        duration: Duration,
    ) -> MetricsView {
        MetricsView {
            db_pool_wait_seconds: families::timed(
                self.db_pool_wait_seconds,
                seq![GLOBAL_NETWORK@, operation],
                duration,
            ),
            ..self
        }
    }
    /// One more upstream JSON-RPC response whose status is not a success.
    pub open spec fn rpc_upstream_non_success_counted(
        self,
        network: Seq<char>,
        status: u16,
    ) -> MetricsView {
        MetricsView {
            rpc_upstream_non_success_total: families::counted(
                self.rpc_upstream_non_success_total,
                seq![network, text::decimal(status as nat)],
            ),
            ..self
        }
    }

    /// One more HTTP response: counted by its status, timed, counted once more
    /// where it is a 429, and counted for the client where that is known.
    pub open spec fn http_observed(
        self,
        network: Seq<char>,
        method: Seq<char>,
        endpoint: Seq<char>,
        status: u16,
        duration: Duration,
        client_ip: Option<Seq<char>>,
    ) -> MetricsView {
        MetricsView {
            http_requests_total: families::counted(
                self.http_requests_total,
                seq![network, method, endpoint, text::decimal(status as nat)],
            ),
            http_request_duration_seconds: families::timed(
                self.http_request_duration_seconds,
                seq![network, method, endpoint],
                duration,
            ),
            http_429_total: if status == 429 {
                families::counted(self.http_429_total, seq![network, endpoint])
            } else {
                self.http_429_total
            },
            http_requests_by_ip_total: match client_ip {
                Some(ip) => families::counted(
                    self.http_requests_by_ip_total,
                    seq![network, ip],
                ),
                None => self.http_requests_by_ip_total,
            },
            ..self
        }
    }

    /// The size of the backlog.
    pub open spec fn sse_backlog_sized(self, network: Seq<char>, size: usize) -> MetricsView {
        MetricsView {
            sse_backlog_size: families::leveled(
                self.sse_backlog_size,
                seq![network],
                size as i64,
            ),
            ..self
        }
    }

    /// The counts of a database pool: all its connections, the idle ones and
    /// those in use.
    pub open spec fn db_pool_counted(self, total: u32, idle: u32) -> MetricsView {
        let in_use: int = if total >= idle {
            total - idle
        } else {
            0
        };
        MetricsView {
            db_pool_connections: families::leveled(
                families::leveled(
                    families::leveled(
                        self.db_pool_connections,
                        seq![GLOBAL_NETWORK@, "total"@],
                        total as i64,
                    ),
                    seq![GLOBAL_NETWORK@, "idle"@],
                    idle as i64,
                ),
                seq![GLOBAL_NETWORK@, "in_use"@],
                in_use as i64,
            ),
            ..self
        }
    }

    /// The gauge of `kind` raised by one.
    pub open spec fn gauge_raised(self, kind: GaugeKind, network: Seq<char>) -> MetricsView {
        let values = seq![network];
        match kind {
            GaugeKind::EventsConnections => MetricsView {
                sse_connections: families::raised(self.sse_connections, values),
                ..self
            },
            GaugeKind::BinaryConnections => MetricsView {
                binary_connections: families::raised(self.binary_connections, values),
                ..self
            },
            GaugeKind::BinaryInflight => MetricsView {
                binary_inflight_requests: families::raised(self.binary_inflight_requests, values),
                ..self
            },
        }
    }

    /// The gauge of `kind` lowered by one.
    pub open spec fn gauge_lowered(self, kind: GaugeKind, network: Seq<char>) -> MetricsView {
        let values = seq![network];
        match kind {
            GaugeKind::EventsConnections => MetricsView {
                sse_connections: families::lowered(self.sse_connections, values),
                ..self
            },
            GaugeKind::BinaryConnections => MetricsView {
                binary_connections: families::lowered(self.binary_connections, values),
                ..self
            },
            GaugeKind::BinaryInflight => MetricsView {
                binary_inflight_requests: families::lowered(self.binary_inflight_requests, values),
                ..self
            },
        }
    }

    /// The value of the gauge of `kind`.
    pub open spec fn gauge(self, kind: GaugeKind, network: Seq<char>) -> i64 {
        let values = seq![network];
        match kind {
            GaugeKind::EventsConnections => families::gauge_at(self.sse_connections, values).level,
            GaugeKind::BinaryConnections => families::gauge_at(
                self.binary_connections,
                values,
            ).level,
            GaugeKind::BinaryInflight => families::gauge_at(
                self.binary_inflight_requests,
                values,
            ).level,
        }
    }
}

/// What a gauge guard counts.
#[derive(Clone, Copy, Debug, PartialEq, Eq, Structural)]
pub enum GaugeKind {
    EventsConnections,
    BinaryConnections,
    BinaryInflight,
}

/// A gauge that was raised and is to be lowered when the guard is released.
#[derive(Debug)]
pub struct GaugeGuard {
    network: String,
    kind: GaugeKind,
}

impl GaugeGuard {
    /// The network that the guard counts for.
    pub closed spec fn network(self) -> Seq<char> {
        self.network@
    }

    /// What the guard counts.
    pub closed spec fn kind(self) -> GaugeKind {
        self.kind
    }
}

impl AppMetrics {
    /// Counts a call of a JSON-RPC method.
    pub fn increment_jsonrpc_method(&mut self, network: &str, method: &str)
        requires
            old(self).wf(),
        ensures
            final(self).wf(),
            final(self).families() == old(self).families(),
            final(self)@ == old(self)@.jsonrpc_method_counted(network@, method@),
    {
        let values: Vec<&str> = vec![network, method];
        self.store.count(JSONRPC_METHOD_TOTAL, &values);
        assert(families::texts(values@) =~= seq![network@, method@]);
    }

    /// Records how long an upstream JSON-RPC request took.
    pub fn observe_rpc_upstream_duration(&mut self, network: &str, duration: Duration)
        requires
            old(self).wf(),
        ensures
            final(self).wf(),
            final(self).families() == old(self).families(),
            final(self)@ == old(self)@.rpc_upstream_timed(network@, duration),
    {
        let values: Vec<&str> = vec![network];
        self.store.observe(RPC_UPSTREAM_DURATION_SECONDS, &values, duration);
        assert(families::texts(values@) =~= seq![network@]);
    }

    /// Counts an upstream JSON-RPC transport error.
    pub fn increment_rpc_upstream_error(&mut self, network: &str)
        requires
            old(self).wf(),
        ensures
            final(self).wf(),
            final(self).families() == old(self).families(),
            final(self)@ == old(self)@.rpc_upstream_error_counted(network@),
    {
        let values: Vec<&str> = vec![network];
        self.store.count(RPC_UPSTREAM_ERRORS_TOTAL, &values);
        assert(families::texts(values@) =~= seq![network@]);
    }

    /// Counts an event ingested from upstream.
    pub fn increment_sse_ingest(&mut self, network: &str)
        requires
            old(self).wf(),
        ensures
            final(self).wf(),
            final(self).families() == old(self).families(),
            final(self)@ == old(self)@.sse_ingest_counted(network@),
    {
        let values: Vec<&str> = vec![network];
        self.store.count(SSE_INGEST_TOTAL, &values);
        assert(families::texts(values@) =~= seq![network@]);
    }

    /// Counts an event that the backlog dropped.
    pub fn increment_sse_backlog_dropped(&mut self, network: &str)
        requires
            old(self).wf(),
        ensures
            final(self).wf(),
            final(self).families() == old(self).families(),
            final(self)@ == old(self)@.sse_backlog_dropped_counted(network@),
    {
        let values: Vec<&str> = vec![network];
        self.store.count(SSE_BACKLOG_DROPPED_TOTAL, &values);
        assert(families::texts(values@) =~= seq![network@]);
    }

    /// Counts a reconnect of the event listener.
    pub fn increment_sse_reconnect(&mut self, network: &str)
        requires
            old(self).wf(),
        ensures
            final(self).wf(),
            final(self).families() == old(self).families(),
            final(self)@ == old(self)@.sse_reconnect_counted(network@),
    {
        let values: Vec<&str> = vec![network];
        self.store.count(SSE_RECONNECT_TOTAL, &values);
        assert(families::texts(values@) =~= seq![network@]);
    }

    /// Records how long the first ApiVersion event took.
    pub fn observe_sse_time_to_first_api_version(&mut self, network: &str, duration: Duration)
        requires
            old(self).wf(),
        ensures
            final(self).wf(),
            final(self).families() == old(self).families(),
            final(self)@ == old(self)@.sse_api_version_timed(network@, duration),
    {
        let values: Vec<&str> = vec![network];
        self.store.observe(SSE_TIME_TO_FIRST_API_VERSION_SECONDS, &values, duration);
        assert(families::texts(values@) =~= seq![network@]);
    }

    /// Counts a binary-port request.
    pub fn increment_binary_requests(&mut self, network: &str)
        requires
            old(self).wf(),
        ensures
            final(self).wf(),
            final(self).families() == old(self).families(),
            final(self)@ == old(self)@.binary_request_counted(network@),
    {
        let values: Vec<&str> = vec![network];
        self.store.count(BINARY_REQUESTS_TOTAL, &values);
        assert(families::texts(values@) =~= seq![network@]);
    }

    /// Counts a binary-port response under its outcome.
    pub fn increment_binary_response(&mut self, network: &str, outcome: &str)
        requires
            old(self).wf(),
        ensures
            final(self).wf(),
            final(self).families() == old(self).families(),
            final(self)@ == old(self)@.binary_response_counted(network@, outcome@),
    {
        let values: Vec<&str> = vec![network, outcome];
        self.store.count(BINARY_RESPONSES_TOTAL, &values);
        assert(families::texts(values@) =~= seq![network@, outcome@]);
    }

    /// Records how long a request waited for a connection.
    pub fn observe_binary_queue_wait(&mut self, network: &str, duration: Duration)
        requires
            old(self).wf(),
        ensures
            final(self).wf(),
            final(self).families() == old(self).families(),
            final(self)@ == old(self)@.binary_queue_timed(network@, duration),
    {
        let values: Vec<&str> = vec![network];
        self.store.observe(BINARY_QUEUE_WAIT_SECONDS, &values, duration);
        assert(families::texts(values@) =~= seq![network@]);
    }

    /// Counts a database migration under its outcome.
    pub fn increment_db_migration(&mut self, outcome: &str)
        requires
            old(self).wf(),
        ensures
            final(self).wf(),
            final(self).families() == old(self).families(),
            final(self)@ == old(self)@.db_migration_counted(outcome@),
    {
        let values: Vec<&str> = vec![GLOBAL_NETWORK, outcome];
        self.store.count(DB_MIGRATIONS_TOTAL, &values);
        assert(families::texts(values@) =~= seq![GLOBAL_NETWORK@, outcome@]);
    }

    /// Records how long a database connection took to check out.
    pub fn observe_db_pool_wait(&mut self, operation: &str, duration: Duration)
        requires
            old(self).wf(),
        ensures
            final(self).wf(),
            final(self).families() == old(self).families(),
            final(self)@ == old(self)@.db_pool_timed(operation@, duration),
    {
        let values: Vec<&str> = vec![GLOBAL_NETWORK, operation];
        self.store.observe(DB_POOL_WAIT_SECONDS, &values, duration);
        assert(families::texts(values@) =~= seq![GLOBAL_NETWORK@, operation@]);
    }

    /// Counts an upstream JSON-RPC response whose status is not a success.
    pub fn increment_rpc_upstream_non_success(&mut self, network: &str, status: u16)
        requires
            old(self).wf(),
        ensures
            final(self).wf(),
            final(self).families() == old(self).families(),
            final(self)@ == old(self)@.rpc_upstream_non_success_counted(network@, status),
    {
        let status_text = decimal_text(status as u64);
        let values: Vec<&str> = vec![network, status_text.as_str()];
        self.store.count(RPC_UPSTREAM_NON_SUCCESS_TOTAL, &values);
        assert(families::texts(values@) =~= seq![network@, text::decimal(status as nat)]);
    }

    /// Records an HTTP response.
    pub fn http_observe(
        &mut self,
        network: &str,
        method: &str,
        endpoint: &str,
        status: u16,
        duration: Duration,
        client_ip: Option<&str>,
    )
        requires
            old(self).wf(),
        ensures
            final(self).wf(),
            final(self).families() == old(self).families(),
            final(self)@ == old(self)@.http_observed(
                network@,
                method@,
                endpoint@,
                status,
                duration,
                optional_text(client_ip),
            ),
    {
        let status_text = decimal_text(status as u64);
        let values: Vec<&str> = vec![network, method, endpoint, status_text.as_str()];
        self.store.count(HTTP_REQUESTS_TOTAL, &values);
        assert(families::texts(values@) =~= seq![
            network@,
            method@,
            endpoint@,
            text::decimal(status as nat),
        ]);
        let values: Vec<&str> = vec![network, method, endpoint];
        self.store.observe(HTTP_REQUEST_DURATION_SECONDS, &values, duration);
        assert(families::texts(values@) =~= seq![network@, method@, endpoint@]);
        if status == 429 {
            let values: Vec<&str> = vec![network, endpoint];
            self.store.count(HTTP_429_TOTAL, &values);
            assert(families::texts(values@) =~= seq![network@, endpoint@]);
        }
        if let Some(ip) = client_ip {
            let values: Vec<&str> = vec![network, ip];
            self.store.count(HTTP_REQUESTS_BY_IP_TOTAL, &values);
            assert(families::texts(values@) =~= seq![network@, ip@]);
        }
    }

    /// Records the size of the backlog.
    pub fn set_sse_backlog_size(&mut self, network: &str, size: usize)
        requires
            old(self).wf(),
        ensures
            final(self).wf(),
            final(self).families() == old(self).families(),
            final(self)@ == old(self)@.sse_backlog_sized(network@, size),
    {
        let values: Vec<&str> = vec![network];
        self.store.set(SSE_BACKLOG_SIZE, &values, size as i64);
        assert(families::texts(values@) =~= seq![network@]);
    }

    /// Records the connections of a database pool.
    pub fn set_db_pool_stats(&mut self, total: u32, idle: u32)
        requires
            old(self).wf(),
        ensures
            final(self).wf(),
            final(self).families() == old(self).families(),
            final(self)@ == old(self)@.db_pool_counted(total, idle),
    {
        let in_use: u32 = total.saturating_sub(idle);
        let values: Vec<&str> = vec![GLOBAL_NETWORK, "total"];
        self.store.set(DB_POOL_CONNECTIONS, &values, total as i64);
        assert(families::texts(values@) =~= seq![GLOBAL_NETWORK@, "total"@]);
        let values: Vec<&str> = vec![GLOBAL_NETWORK, "idle"];
        self.store.set(DB_POOL_CONNECTIONS, &values, idle as i64);
        assert(families::texts(values@) =~= seq![GLOBAL_NETWORK@, "idle"@]);
        let values: Vec<&str> = vec![GLOBAL_NETWORK, "in_use"];
        self.store.set(DB_POOL_CONNECTIONS, &values, in_use as i64);
        assert(families::texts(values@) =~= seq![GLOBAL_NETWORK@, "in_use"@]);
    }

    /// Counts an event stream connection until the guard is released.
    pub fn events_connection_guard(&mut self, network: &str) -> (guard: GaugeGuard)
        requires
            old(self).wf(),
        ensures
            final(self).wf(),
            final(self).families() == old(self).families(),
            final(self)@ == old(self)@.gauge_raised(GaugeKind::EventsConnections, network@),
            guard.network() == network@,
            guard.kind() == GaugeKind::EventsConnections,
    {
        let values: Vec<&str> = vec![network];
        self.store.raise(SSE_CONNECTIONS, &values);
        assert(families::texts(values@) =~= seq![network@]);
        GaugeGuard { network: network.to_owned(), kind: GaugeKind::EventsConnections }
    }

    /// Counts a binary websocket connection until the guard is released.
    pub fn binary_connection_guard(&mut self, network: &str) -> (guard: GaugeGuard)
        requires
            old(self).wf(),
        ensures
            final(self).wf(),
            final(self).families() == old(self).families(),
            final(self)@ == old(self)@.gauge_raised(GaugeKind::BinaryConnections, network@),
            guard.network() == network@,
            guard.kind() == GaugeKind::BinaryConnections,
    {
        let values: Vec<&str> = vec![network];
        self.store.raise(BINARY_CONNECTIONS, &values);
        assert(families::texts(values@) =~= seq![network@]);
        GaugeGuard { network: network.to_owned(), kind: GaugeKind::BinaryConnections }
    }

    /// Counts a binary-port request in flight until the guard is released.
    pub fn binary_inflight_guard(&mut self, network: &str) -> (guard: GaugeGuard)
        requires
            old(self).wf(),
        ensures
            final(self).wf(),
            final(self).families() == old(self).families(),
            final(self)@ == old(self)@.gauge_raised(GaugeKind::BinaryInflight, network@),
            guard.network() == network@,
            guard.kind() == GaugeKind::BinaryInflight,
    {
        let values: Vec<&str> = vec![network];
        self.store.raise(BINARY_INFLIGHT_REQUESTS, &values);
        assert(families::texts(values@) =~= seq![network@]);
        GaugeGuard { network: network.to_owned(), kind: GaugeKind::BinaryInflight }
    }

    /// Lowers the gauge that the guard raised.
    pub fn release(&mut self, guard: GaugeGuard)
        requires
            old(self).wf(),
        ensures
            final(self).wf(),
            final(self).families() == old(self).families(),
            final(self)@ == old(self)@.gauge_lowered(guard.kind(), guard.network()),
    {
        let values: Vec<&str> = vec![guard.network.as_str()];
        match guard.kind {
            GaugeKind::EventsConnections => self.store.lower(SSE_CONNECTIONS, &values),
            GaugeKind::BinaryConnections => self.store.lower(BINARY_CONNECTIONS, &values),
            GaugeKind::BinaryInflight => self.store.lower(BINARY_INFLIGHT_REQUESTS, &values),
        }
        assert(families::texts(values@) =~= seq![guard.network@]);
    }

    /// The metrics in the Prometheus text format: the families to which
    /// something was written, in the order of their names, with a sample for
    /// each combination of label values.
    pub fn render(&self) -> (r: String)
        ensures
            r@ == self.text(),
            self.wf() ==> families::shows(r@, self@.written()),
    {
        let r = self.store.render();
        proof {
            if self.wf() {
                self.lemma_written();
            }
        }
        r
    }

    /// The families to which something was written, by their cells.
    proof fn lemma_written(self)
        requires
            self.wf(),
        ensures
            families::written(self.store) == self@.written(),
    {
        assert(self@.counters() =~= families::counter_cells(self.store));
        assert(self@.gauges() =~= families::gauge_cells(self.store));
        assert(self@.histograms() =~= families::histogram_cells(self.store));
    }
}

/// Metrics to which nothing was written have an empty text.
pub proof fn law_no_metrics_no_text(text: Seq<char>)
    requires
        families::shows(text, no_metrics().written()),
    ensures
        text == Seq::<char>::empty(),
{
    assert(no_metrics().written() =~= Set::<(FamilyDesc, Seq<Seq<char>>)>::empty());
    families::law_nothing_written_shows_nothing(text);
}

/// Records an HTTP response under the network and the endpoint of its path.
pub fn track_http(
    metrics: &mut AppMetrics,
    method: &str,
    path: &str,
    status: u16,
    duration: Duration,
    client_ip: Option<&str>,
)
    requires
        old(metrics).wf(),
    ensures
        final(metrics).wf(),
        final(metrics).families() == old(metrics).families(),
        final(metrics)@ == old(metrics)@.http_observed(
            network_label(path@),
            method@,
            endpoint_label(path@),
            status,
            duration,
            optional_text(client_ip),
        ),
{
    let network = network_from_path(path);
    let endpoint = endpoint_from_path(path);
    metrics.http_observe(
        network.as_str(),
        method,
        endpoint.as_str(),
        status,
        duration,
        client_ip,
    );
}

/// A gauge that is raised and lowered again reads as before, and so does every
/// other gauge.
pub proof fn law_gauge_guard_balances(
    metrics: MetricsView,
    kind: GaugeKind,
    network: Seq<char>,
    other_kind: GaugeKind,
    other_network: Seq<char>,
)
    ensures
        metrics.gauge_raised(kind, network).gauge_lowered(kind, network).gauge(
            other_kind,
            other_network,
        ) == metrics.gauge(other_kind, other_network),
{
}

/// Guards may be released in any order: every gauge comes out the same.
pub proof fn law_gauge_guards_commute(
    metrics: MetricsView,
    kind: GaugeKind,
    network: Seq<char>,
    other_kind: GaugeKind,
    other_network: Seq<char>,
    seen_kind: GaugeKind,
    seen_network: Seq<char>,
)
    ensures
        metrics.gauge_lowered(kind, network).gauge_lowered(other_kind, other_network).gauge(
            seen_kind,
            seen_network,
        ) == metrics.gauge_lowered(other_kind, other_network).gauge_lowered(kind, network).gauge(
            seen_kind,
            seen_network,
        ),
{
}

/// The text of an optional text.
pub open spec fn optional_text(value: Option<&str>) -> Option<Seq<char>> {
    match value {
        Some(text) => Some(text@),
        None => None,
    }
}

/// A path without the slashes in front.
pub open spec fn trimmed(path: Seq<char>) -> Seq<char>
    decreases path.len(),
{
    if path.len() > 0 && path[0] == '/' {
        trimmed(path.skip(1))
    } else {
        path
    }
}

/// The length of the text up to the first slash.
pub open spec fn segment_len(text: Seq<char>) -> nat
    decreases text.len(),
{
    if text.len() == 0 || text[0] == '/' {
        0
    } else {
        1 + segment_len(text.skip(1))
    }
}

/// The segments of a path: the text between slashes, after those in front.
pub open spec fn segments(text: Seq<char>) -> Seq<Seq<char>>
    decreases text.len(),
{
    let n = segment_len(text);
    if n >= text.len() {
        seq![text]
    } else {
        seq![text.take(n as int)] + segments(text.skip(n as int + 1))
    }
}

/// The network of a path: its first segment, or the global network.
pub open spec fn network_label(path: Seq<char>) -> Seq<char> {
    let first = segments(trimmed(path))[0];
    if first.len() == 0 {
        GLOBAL_NETWORK@
    } else {
        first
    }
}

/// The endpoint of a path: its second segment where that is a known endpoint,
/// `root` where it is missing or empty, and `other` elsewhere.
pub open spec fn endpoint_label(path: Seq<char>) -> Seq<char> {
    let parts = segments(trimmed(path));
    if parts.len() < 2 || parts[1].len() == 0 {
        "root"@
    } else if parts[1] == "rpc"@ {
        "rpc"@
    } else if parts[1] == "events"@ {
        "events"@
    } else if parts[1] == "binary"@ {
        "binary"@
    } else {
        "other"@
    }
}

proof fn lemma_segment_len(text: Seq<char>)
    ensures
        segment_len(text) <= text.len(),
    decreases text.len(),
{
    if text.len() > 0 && text[0] != '/' {
        lemma_segment_len(text.skip(1));
    }
}

/// The position of the first character that is not a slash.
fn skip_slashes(chars: &Vec<char>) -> (r: usize)
    ensures
        r <= chars@.len(),
        chars@.skip(r as int) == trimmed(chars@),
{
    let mut i: usize = 0;
    assert(chars@.skip(0) =~= chars@);
    while i < chars.len() && chars[i] == '/'
        invariant
            i <= chars@.len(),
            trimmed(chars@.skip(i as int)) == trimmed(chars@),
        decreases chars@.len() - i,
    {
        assert(chars@.skip(i as int).skip(1) =~= chars@.skip(i + 1));
        i += 1;
    }
    i
}

/// The end of the segment that starts at `start`.
fn segment_end(chars: &Vec<char>, start: usize) -> (r: usize)
    requires
        start <= chars@.len(),
    ensures
        start <= r <= chars@.len(),
        r == start + segment_len(chars@.skip(start as int)),
{
    let mut i: usize = start;
    while i < chars.len() && chars[i] != '/'
        invariant
            start <= i <= chars@.len(),
            start + segment_len(chars@.skip(start as int)) == i + segment_len(
                chars@.skip(i as int),
            ),
        decreases chars@.len() - i,
    {
        assert(chars@.skip(i as int).skip(1) =~= chars@.skip(i + 1));
        i += 1;
    }
    i
}

/// The network label of a request path.
pub fn network_from_path(path: &str) -> (r: String)
    ensures
        r@ == network_label(path@),
{
    let chars = chars_of(path);
    let start = skip_slashes(&chars);
    let end = segment_end(&chars, start);
    let ghost rest = trimmed(path@);
    proof {
        lemma_segment_len(rest);
        assert(segments(rest)[0] =~= rest.take(segment_len(rest) as int));
        assert(rest.take(segment_len(rest) as int) =~= path@.subrange(start as int, end as int));
    }
    if start == end {
        GLOBAL_NETWORK.to_owned()
    } else {
        path.substring_char(start, end).to_owned()
    }
}

/// The endpoint label of a request path.
pub fn endpoint_from_path(path: &str) -> (r: String)
    ensures
        r@ == endpoint_label(path@),
{
    let chars = chars_of(path);
    let start = skip_slashes(&chars);
    let end = segment_end(&chars, start);
    let ghost rest = trimmed(path@);
    proof {
        lemma_segment_len(rest);
    }
    if end >= chars.len() {
        return "root".to_owned();
    }
    let second = segment_end(&chars, end + 1);
    let ghost tail = rest.skip(segment_len(rest) as int + 1);
    proof {
        assert(tail =~= chars@.skip(end + 1));
        lemma_segment_len(tail);
        assert(segments(rest)[1] == segments(tail)[0]);
        assert(segments(tail)[0] =~= tail.take(segment_len(tail) as int));
        assert(segments(tail)[0] =~= path@.subrange(end + 1, second as int));
    }
    let segment = path.substring_char(end + 1, second);
    if second == end + 1 {
        "root".to_owned()
    } else if same_text(segment, "rpc") {
        "rpc".to_owned()
    } else if same_text(segment, "events") {
        "events".to_owned()
    } else if same_text(segment, "binary") {
        "binary".to_owned()
    } else {
        "other".to_owned()
    }
}

/// Whether metrics are as before but for one more that was counted under label
/// values in the counter family of a name.
pub open spec fn counts_one_more(
    before: MetricsView,
    after: MetricsView,
    name: Seq<char>,
    values: Seq<Seq<char>>,
) -> bool {
    exists|k: int|
        0 <= k < 12 && (#[trigger] catalog::counter_families()[k]).name == name
            && catalog::counter_families()[k].labels.len() == values.len() && after.counters()
            == before.counters().update(k, families::counted(before.counters()[k], values))
            && after.gauges() == before.gauges() && after.histograms() == before.histograms()
}

/// Whether metrics are as before but for one more duration under label values in
/// the histogram family of a name.
pub open spec fn times_one_more(
    before: MetricsView,
    after: MetricsView,
    name: Seq<char>,
    values: Seq<Seq<char>>,
    duration: Duration,
) -> bool {
    exists|k: int|
        0 <= k < 5 && (#[trigger] catalog::histogram_families()[k]).name == name
            && catalog::histogram_families()[k].labels.len() == values.len() && after.histograms()
            == before.histograms().update(
            k,
            families::timed(before.histograms()[k], values, duration),
        ) && after.counters() == before.counters() && after.gauges() == before.gauges()
}

/// Whether metrics are as before but for a new level under label values in the
/// gauge family of a name.
pub open spec fn sets_level(
    before: MetricsView,
    after: MetricsView,
    name: Seq<char>,
    values: Seq<Seq<char>>,
    level: spec_fn(i64) -> i64,
) -> bool {
    exists|k: int|
        0 <= k < 5 && (#[trigger] catalog::gauge_families()[k]).name == name
            && catalog::gauge_families()[k].labels.len() == values.len() && after.gauges()
            == before.gauges().update(
            k,
            families::leveled(
                before.gauges()[k],
                values,
                level(families::gauge_at(before.gauges()[k], values).level),
            ),
        ) && after.counters() == before.counters() && after.histograms() == before.histograms()
}

proof fn lemma_counts_one_more(
    before: MetricsView,
    after: MetricsView,
    k: int,
    values: Seq<Seq<char>>,
)
    requires
        0 <= k < 12,
        catalog::counter_families()[k].labels.len() == values.len(),
        after.counters() =~= before.counters().update(
            k,
            families::counted(before.counters()[k], values),
        ),
        after.gauges() =~= before.gauges(),
        after.histograms() =~= before.histograms(),
    ensures
        counts_one_more(before, after, catalog::counter_families()[k].name, values),
{
}

proof fn lemma_times_one_more(
    before: MetricsView,
    after: MetricsView,
    k: int,
    values: Seq<Seq<char>>,
    duration: Duration,
)
    requires
        0 <= k < 5,
        catalog::histogram_families()[k].labels.len() == values.len(),
        after.histograms() =~= before.histograms().update(
            k,
            families::timed(before.histograms()[k], values, duration),
        ),
        after.counters() =~= before.counters(),
        after.gauges() =~= before.gauges(),
    ensures
        times_one_more(before, after, catalog::histogram_families()[k].name, values, duration),
{
}

proof fn lemma_sets_level(
    before: MetricsView,
    after: MetricsView,
    k: int,
    values: Seq<Seq<char>>,
    level: spec_fn(i64) -> i64,
)
    requires
        0 <= k < 5,
        catalog::gauge_families()[k].labels.len() == values.len(),
        after.gauges() =~= before.gauges().update(
            k,
            families::leveled(
                before.gauges()[k],
                values,
                level(families::gauge_at(before.gauges()[k], values).level),
            ),
        ),
        after.counters() =~= before.counters(),
        after.histograms() =~= before.histograms(),
    ensures
        sets_level(before, after, catalog::gauge_families()[k].name, values, level),
{
}

/// Whatever is counted is counted once, in the family of its name and under its
/// own labels, and nothing else changes.
pub proof fn law_each_count_goes_to_its_family(
    metrics: MetricsView,
    network: Seq<char>,
    other: Seq<char>,
    status: u16,
)
    ensures
        counts_one_more(
            metrics,
            metrics.jsonrpc_method_counted(network, other),
            "jsonrpc_method_total"@,
            seq![network, other],
        ),
        counts_one_more(
            metrics,
            metrics.rpc_upstream_error_counted(network),
            "rpc_upstream_errors_total"@,
            seq![network],
        ),
        counts_one_more(
            metrics,
            metrics.rpc_upstream_non_success_counted(network, status),
            "rpc_upstream_non_success_total"@,
            seq![network, text::decimal(status as nat)],
        ),
        counts_one_more(
            metrics,
            metrics.sse_ingest_counted(network),
            "sse_ingest_total"@,
            seq![network],
        ),
        counts_one_more(
            metrics,
            metrics.sse_backlog_dropped_counted(network),
            "sse_backlog_dropped_total"@,
            seq![network],
        ),
        counts_one_more(
            metrics,
            metrics.sse_reconnect_counted(network),
            "sse_reconnect_total"@,
            seq![network],
        ),
        counts_one_more(
            metrics,
            metrics.binary_request_counted(network),
            "binary_requests_total"@,
            seq![network],
        ),
        counts_one_more(
            metrics,
            metrics.binary_response_counted(network, other),
            "binary_responses_total"@,
            seq![network, other],
        ),
        counts_one_more(
            metrics,
            metrics.db_migration_counted(other),
            "db_migrations_total"@,
            seq!["global"@, other],
        ),
{
    let status_text = text::decimal(status as nat);
    let one = seq![network];
    let two = seq![network, other];
    lemma_counts_one_more(metrics, metrics.jsonrpc_method_counted(network, other), 3, two);
    lemma_counts_one_more(metrics, metrics.rpc_upstream_error_counted(network), 4, one);
    lemma_counts_one_more(
        metrics,
        metrics.rpc_upstream_non_success_counted(network, status),
        5,
        seq![network, status_text],
    );
    lemma_counts_one_more(metrics, metrics.sse_ingest_counted(network), 6, one);
    lemma_counts_one_more(metrics, metrics.sse_backlog_dropped_counted(network), 7, one);
    lemma_counts_one_more(metrics, metrics.sse_reconnect_counted(network), 8, one);
    lemma_counts_one_more(metrics, metrics.binary_request_counted(network), 9, one);
    lemma_counts_one_more(metrics, metrics.binary_response_counted(network, other), 10, two);
    lemma_counts_one_more(
        metrics,
        metrics.db_migration_counted(other),
        11,
        seq!["global"@, other],
    );
}

/// Whatever is timed is timed once, in the family of its name and under its own
/// labels, and nothing else changes.
pub proof fn law_each_duration_goes_to_its_family(
    metrics: MetricsView,
    network: Seq<char>,
    operation: Seq<char>,
    duration: Duration,
)
    ensures
        times_one_more(
            metrics,
            metrics.rpc_upstream_timed(network, duration),
            "rpc_upstream_duration_seconds"@,
            seq![network],
            duration,
        ),
        times_one_more(
            metrics,
            metrics.sse_api_version_timed(network, duration),
            "sse_time_to_first_api_version_seconds"@,
            seq![network],
            duration,
        ),
        times_one_more(
            metrics,
            metrics.binary_queue_timed(network, duration),
            "binary_queue_wait_seconds"@,
            seq![network],
            duration,
        ),
        times_one_more(
            metrics,
            metrics.db_pool_timed(operation, duration),
            "db_pool_wait_seconds"@,
            seq!["global"@, operation],
            duration,
        ),
{
    let one = seq![network];
    lemma_times_one_more(metrics, metrics.rpc_upstream_timed(network, duration), 1, one, duration);
    lemma_times_one_more(
        metrics,
        metrics.sse_api_version_timed(network, duration),
        2,
        one,
        duration,
    );
    lemma_times_one_more(metrics, metrics.binary_queue_timed(network, duration), 3, one, duration);
    lemma_times_one_more(
        metrics,
        metrics.db_pool_timed(operation, duration),
        4,
        seq!["global"@, operation],
        duration,
    );
}

/// A gauge goes up by one where it is raised and down by one where it is
/// lowered, in the family of its name and for its own network, and nothing else
/// changes. The size of a backlog is set as it is given.
pub proof fn law_each_level_goes_to_its_family(
    metrics: MetricsView,
    network: Seq<char>,
    size: usize,
    kind: GaugeKind,
)
    ensures
        ({
            let name = match kind {
                GaugeKind::EventsConnections => "sse_connections"@,
                GaugeKind::BinaryConnections => "binary_connections"@,
                GaugeKind::BinaryInflight => "binary_inflight_requests"@,
            };
            let up = |level: i64| families::level_after(level);
            let down = |level: i64| families::level_before(level);
            &&& sets_level(metrics, metrics.gauge_raised(kind, network), name, seq![network], up)
            &&& sets_level(metrics, metrics.gauge_lowered(kind, network), name, seq![network], down)
            &&& metrics.gauge_raised(kind, network).gauge(kind, network) == families::level_after(
                metrics.gauge(kind, network),
            )
            &&& metrics.gauge_lowered(kind, network).gauge(kind, network)
                == families::level_before(metrics.gauge(kind, network))
        }),
        sets_level(
            metrics,
            metrics.sse_backlog_sized(network, size),
            "sse_backlog_size"@,
            seq![network],
            |level: i64| size as i64,
        ),
{
    let place = match kind {
        GaugeKind::EventsConnections => 1,
        GaugeKind::BinaryConnections => 2,
        GaugeKind::BinaryInflight => 3int,
    };
    let up = |level: i64| families::level_after(level);
    let down = |level: i64| families::level_before(level);
    lemma_sets_level(metrics, metrics.gauge_raised(kind, network), place, seq![network], up);
    lemma_sets_level(metrics, metrics.gauge_lowered(kind, network), place, seq![network], down);
    lemma_sets_level(
        metrics,
        metrics.sse_backlog_sized(network, size),
        0,
        seq![network],
        |level: i64| size as i64,
    );
}

/// The connections of a database pool are recorded as they are given, in all,
/// idle and in use, which is what is left of all without the idle ones and never
/// less than none; nothing else changes.
pub proof fn law_pool_connections_are_recorded(
    metrics: MetricsView,
    total: u32,
    idle: u32,
    in_use: u32,
)
    requires
        total >= idle ==> in_use == total - idle,
        total < idle ==> in_use == 0,
    ensures
        ({
            let after = metrics.db_pool_counted(total, idle);
            let all = families::leveled(
                metrics.db_pool_connections,
                seq!["global"@, "total"@],
                total as i64,
            );
            let free = families::leveled(all, seq!["global"@, "idle"@], idle as i64);
            let used = families::leveled(free, seq!["global"@, "in_use"@], in_use as i64);
            &&& after.gauges() == metrics.gauges().update(4, used)
            &&& after.counters() == metrics.counters()
            &&& after.histograms() == metrics.histograms()
            &&& catalog::gauge_families()[4].name == "db_pool_connections"@
            &&& families::gauge_at(after.db_pool_connections, seq!["global"@, "in_use"@]).level
                == in_use as i64
        }),
{
    let after = metrics.db_pool_counted(total, idle);
    assert(after.counters() =~= metrics.counters());
    assert(after.histograms() =~= metrics.histograms());
    assert(after.gauges() =~= metrics.gauges().update(4, after.db_pool_connections));
}

/// An HTTP response is counted once under its network, method, endpoint and
/// status, and timed under all but its status. One with status 429 is counted as
/// such besides, and no other is. The client is counted where it is known.
/// Nothing else changes.
pub proof fn law_http_responses_are_recorded(
    metrics: MetricsView,
    network: Seq<char>,
    method: Seq<char>,
    endpoint: Seq<char>,
    status: u16,
    duration: Duration,
    client_ip: Option<Seq<char>>,
)
    ensures
        ({
            let after = metrics.http_observed(
                network,
                method,
                endpoint,
                status,
                duration,
                client_ip,
            );
            let by_status = families::counted(
                metrics.counters()[0],
                seq![network, method, endpoint, text::decimal(status as nat)],
            );
            let time = families::timed(
                metrics.histograms()[0],
                seq![network, method, endpoint],
                duration,
            );
            &&& catalog::counter_families()[0].name == "http_requests_total"@
            &&& catalog::counter_families()[1].name == "http_requests_by_ip_total"@
            &&& catalog::counter_families()[2].name == "http_429_total"@
            &&& catalog::histogram_families()[0].name == "http_request_duration_seconds"@
            &&& after.counters()[0] == by_status
            &&& client_ip is None ==> after.counters()[1] == metrics.counters()[1]
            &&& client_ip is Some ==> after.counters()[1] == families::counted(
                metrics.counters()[1],
                seq![network, client_ip->0],
            )
            &&& status != 429 ==> after.counters()[2] == metrics.counters()[2]
            &&& status == 429 ==> after.counters()[2] == families::counted(
                metrics.counters()[2],
                seq![network, endpoint],
            )
            &&& after.counters().skip(3) == metrics.counters().skip(3)
            &&& after.histograms() == metrics.histograms().update(0, time)
            &&& after.gauges() == metrics.gauges()
        }),
{
    let after = metrics.http_observed(network, method, endpoint, status, duration, client_ip);
    assert(after.counters().skip(3) =~= metrics.counters().skip(3));
    assert(after.gauges() =~= metrics.gauges());
}

/// Nothing is counted before anything happened.
pub proof fn law_metrics_start_empty(k: int)
    ensures
        0 <= k < 12 ==> no_metrics().counters()[k] == families::no_counters(),
        0 <= k < 5 ==> no_metrics().gauges()[k] == families::no_gauges(),
        0 <= k < 5 ==> no_metrics().histograms()[k] == families::no_histograms(),
{
}

/// Slashes in front of a path do not matter, and a path of slashes alone
/// belongs to no network.
pub proof fn law_slashes_in_front_do_not_matter(path: Seq<char>)
    ensures
        network_label(seq!['/'] + path) == network_label(path),
        endpoint_label(seq!['/'] + path) == endpoint_label(path),
        network_label(Seq::empty()) == "global"@,
        endpoint_label(Seq::empty()) == "root"@,
{
    assert((seq!['/'] + path).skip(1) =~= path);
    let none = Seq::<char>::empty();
    assert(segments(none)[0] == none);
}

/// The network of a path is what stands before the next slash, and its endpoint
/// is what stands between that slash and one after it: `rpc`, `events` and
/// `binary` are endpoints of their own, where nothing stands it is the root, and
/// anything else is counted as another.
pub proof fn law_paths_name_network_and_endpoint(
    network: Seq<char>,
    endpoint: Seq<char>,
    rest: Seq<char>,
)
    requires
        network.len() > 0,
        forall|i: int| 0 <= i < network.len() ==> #[trigger] network[i] != '/',
        forall|i: int| 0 <= i < endpoint.len() ==> #[trigger] endpoint[i] != '/',
    ensures
        ({
            let path = network + seq!['/'] + endpoint;
            let longer = path + seq!['/'] + rest;
            let expected = if endpoint.len() == 0 {
                "root"@
            } else if endpoint == "rpc"@ || endpoint == "events"@ || endpoint == "binary"@ {
                endpoint
            } else {
                "other"@
            };
            &&& network_label(network) == network && endpoint_label(network) == "root"@
            &&& network_label(path) == network && endpoint_label(path) == expected
            &&& network_label(longer) == network && endpoint_label(longer) == expected
        }),
{
    let path = network + seq!['/'] + endpoint;
    let longer = path + seq!['/'] + rest;
    let none = Seq::<char>::empty();
    let tail = endpoint + seq!['/'] + rest;
    assert(path =~= network + seq!['/'] + endpoint);
    assert(longer =~= network + seq!['/'] + tail);
    assert(network[0] == path[0] && network[0] == longer[0]);
    lemma_first_segment(network, none);
    lemma_first_segment(network, seq!['/'] + endpoint);
    lemma_first_segment(network, seq!['/'] + tail);
    lemma_first_segment(endpoint, none);
    lemma_first_segment(endpoint, seq!['/'] + rest);
    assert(network + none =~= network);
    assert(endpoint + none =~= endpoint);
    assert(network + (seq!['/'] + endpoint) =~= path);
    assert(network + (seq!['/'] + tail) =~= longer);
    assert(endpoint + (seq!['/'] + rest) =~= tail);
    let n = network.len() as int;
    assert(path.take(n) =~= network && longer.take(n) =~= network);
    assert(path.skip(n + 1) =~= endpoint && longer.skip(n + 1) =~= tail);
    assert(tail.take(endpoint.len() as int) =~= endpoint);
    assert(segments(endpoint)[0] == endpoint);
    assert(segments(tail)[0] == endpoint);
    assert(segments(path)[0] == network && segments(path)[1] == endpoint);
    assert(segments(longer)[0] == network && segments(longer)[1] == endpoint);
}

/// A text without a slash is the first segment of itself with a slash behind it,
/// or with nothing.
proof fn lemma_first_segment(text: Seq<char>, rest: Seq<char>)
    requires
        forall|i: int| 0 <= i < text.len() ==> #[trigger] text[i] != '/',
        rest.len() > 0 ==> rest[0] == '/',
    ensures
        segment_len(text + rest) == text.len(),
    decreases text.len(),
{
    if text.len() > 0 {
        let shorter = text.skip(1);
        assert forall|i: int| 0 <= i < shorter.len() implies #[trigger] shorter[i] != '/' by {
            assert(shorter[i] == text[i + 1]);
        }
        lemma_first_segment(shorter, rest);
        assert((text + rest)[0] == text[0]);
        assert((text + rest).skip(1) =~= shorter + rest);
    } else {
        assert(text + rest =~= rest);
    }
}

} // verus!
