//! The metric families of the proxy, and why a registry takes them all.

use vstd::prelude::*;
use vstd::string::*;

use crate::families;
use crate::families::{FamilyDesc, FamilyKind};

verus! {

/// The counter families of the proxy.
pub open spec fn counter_families() -> Seq<FamilyDesc> {
    seq![
        families::family(
            FamilyKind::Counter,
            "http_requests_total"@,
            "HTTP responses by status"@,
            seq!["network"@, "method"@, "endpoint"@, "status"@],
        ),
        families::family(
            FamilyKind::Counter,
            "http_requests_by_ip_total"@,
            "HTTP requests by client IP"@,
            seq!["network"@, "ip"@],
        ),
        families::family(
            FamilyKind::Counter,
            "http_429_total"@,
            "HTTP 429 responses"@,
            seq!["network"@, "endpoint"@],
        ),
        families::family(
            FamilyKind::Counter,
            "jsonrpc_method_total"@,
            "JSON-RPC method call count"@,
            seq!["network"@, "method"@],
        ),
        families::family(
            FamilyKind::Counter,
            "rpc_upstream_errors_total"@,
            "Upstream JSON-RPC transport errors"@,
            seq!["network"@],
        ),
        families::family(
            FamilyKind::Counter,
            "rpc_upstream_non_success_total"@,
            "Upstream JSON-RPC non-success HTTP responses"@,
            seq!["network"@, "status"@],
        ),
        families::family(
            FamilyKind::Counter,
            "sse_ingest_total"@,
            "SSE events ingested from upstream"@,
            seq!["network"@],
        ),
        families::family(
            FamilyKind::Counter,
            "sse_backlog_dropped_total"@,
            "SSE backlog events dropped due to limits"@,
            seq!["network"@],
        ),
        families::family(
            FamilyKind::Counter,
            "sse_reconnect_total"@,
            "SSE listener reconnects"@,
            seq!["network"@],
        ),
        families::family(
            FamilyKind::Counter,
            "binary_requests_total"@,
            "Binary port requests received"@,
            seq!["network"@],
        ),
        families::family(
            FamilyKind::Counter,
            "binary_responses_total"@,
            "Binary port responses returned"@,
            seq!["network"@, "outcome"@],
        ),
        families::family(
            FamilyKind::Counter,
            "db_migrations_total"@,
            "Database migrations outcomes"@,
            seq!["network"@, "outcome"@],
        ),
    ]
}

/// The gauge families of the proxy.
pub open spec fn gauge_families() -> Seq<FamilyDesc> {
    seq![
        families::family(
            FamilyKind::Gauge,
            "sse_backlog_size"@,
            "Current SSE backlog size"@,
            seq!["network"@],
        ),
        families::family(
            FamilyKind::Gauge,
            "sse_connections"@,
            "Active SSE/WS event stream connections"@,
            seq!["network"@],
        ),
        families::family(
            FamilyKind::Gauge,
            "binary_connections"@,
            "Active binary websocket connections"@,
            seq!["network"@],
        ),
        families::family(
            FamilyKind::Gauge,
            "binary_inflight_requests"@,
            "Binary port requests in flight"@,
            seq!["network"@],
        ),
        families::family(
            FamilyKind::Gauge,
            "db_pool_connections"@,
            "Database pool connection counts"@,
            seq!["network"@, "state"@],
        ),
    ]
}

/// The histogram families of the proxy.
pub open spec fn histogram_families() -> Seq<FamilyDesc> {
    seq![
        families::family(
            FamilyKind::Histogram,
            "http_request_duration_seconds"@,
            "HTTP request duration in seconds"@,
            seq!["network"@, "method"@, "endpoint"@],
        ),
        families::family(
            FamilyKind::Histogram,
            "rpc_upstream_duration_seconds"@,
            "Upstream JSON-RPC request duration in seconds"@,
            seq!["network"@],
        ),
        families::family(
            FamilyKind::Histogram,
            "sse_time_to_first_api_version_seconds"@,
            "Time to first ApiVersion event after connecting"@,
            seq!["network"@],
        ),
        families::family(
            FamilyKind::Histogram,
            "binary_queue_wait_seconds"@,
            "Time waiting for a binary pool connection"@,
            seq!["network"@],
        ),
        families::family(
            FamilyKind::Histogram,
            "db_pool_wait_seconds"@,
            "Database connection checkout wait time in seconds"@,
            seq!["network"@, "operation"@],
        ),
    ]
}

/// The metric families of the proxy, in the order of registration.
pub open spec fn metric_families() -> Seq<FamilyDesc> {
    counter_families() + gauge_families() + histogram_families()
}

/// The place of a label among the labels of the proxy.
spec fn label_place(label: Seq<char>) -> int {
    if label == "network"@ {
        0
    } else if label == "method"@ {
        1
    } else if label == "endpoint"@ {
        2
    } else if label == "status"@ {
        3
    } else if label == "ip"@ {
        4
    } else if label == "outcome"@ {
        5
    } else if label == "state"@ {
        6
    } else if label == "operation"@ {
        7
    } else {
        -1
    }
}

/// Whether the first labels of a list stand in the order of their places.
spec fn in_place(labels: Seq<Seq<char>>, n: nat) -> bool
    decreases n,
{
    n == 0 || (in_place(labels, (n - 1) as nat) && label_place(labels[n - 1]) >= 0 && (n == 1
        || label_place(labels[n - 2]) < label_place(labels[n - 1])))
}

/// The labels differ, and none is reserved.
proof fn lemma_label_places()
    ensures
        label_place("network"@) == 0,
        label_place("method"@) == 1,
        label_place("endpoint"@) == 2,
        label_place("status"@) == 3,
        label_place("ip"@) == 4,
        label_place("outcome"@) == 5,
        label_place("state"@) == 6,
        label_place("operation"@) == 7,
        label_place("le"@) == -1,
{
    reveal_strlit("network");
    reveal_strlit("method");
    reveal_strlit("endpoint");
    reveal_strlit("status");
    reveal_strlit("ip");
    reveal_strlit("outcome");
    reveal_strlit("state");
    reveal_strlit("operation");
    reveal_strlit("le");
    assert("network"@.len() == 7 && "method"@.len() == 6 && "endpoint"@.len() == 8);
    assert("status"@.len() == 6 && "ip"@.len() == 2 && "outcome"@.len() == 7);
    assert("state"@.len() == 5 && "operation"@.len() == 9 && "le"@.len() == 2);
    assert("method"@[0] != "status"@[0] && "ip"@[0] != "le"@[0]);
    assert("network"@[0] != "outcome"@[0]);
}

/// The labels are names.
#[verifier::rlimit(40)]
proof fn lemma_label_is_name(label: Seq<char>)
    requires
        label_place(label) >= 0,
    ensures
        families::valid_ident(label, false),
{
    reveal_with_fuel(families::ident_prefix, 10);
    if label == "network"@ {
        reveal_strlit("network");
    }
    if label == "method"@ {
        reveal_strlit("method");
    }
    if label == "endpoint"@ {
        reveal_strlit("endpoint");
    }
    if label == "status"@ {
        reveal_strlit("status");
    }
    if label == "ip"@ {
        reveal_strlit("ip");
    }
    if label == "outcome"@ {
        reveal_strlit("outcome");
    }
    if label == "state"@ {
        reveal_strlit("state");
    }
    if label == "operation"@ {
        reveal_strlit("operation");
    }
}

/// Labels in the order of their places are allowed.
proof fn lemma_labels_are_allowed(labels: Seq<Seq<char>>, n: nat)
    requires
        n <= labels.len(),
        in_place(labels, n),
    ensures
        forall|i: int| 0 <= i < n ==> families::valid_ident(#[trigger] labels[i], false),
        forall|i: int| 0 <= i < n ==> #[trigger] labels[i] != "le"@,
        forall|i: int, j: int|
            0 <= i < j < n ==> label_place(#[trigger] labels[i]) < label_place(
                #[trigger] labels[j],
            ),
    decreases n,
{
    if n > 0 {
        lemma_labels_are_allowed(labels, (n - 1) as nat);
        lemma_label_places();
        lemma_label_is_name(labels[n - 1]);
    }
}

/// A hash into which one more byte is mixed.
spec fn step(hash: u64, byte: u8) -> u64 {
    families::fnv_step(hash, byte)
}

/// A hash into which eight more bytes are mixed.
spec fn mixed(hash: u64, a: u8, b: u8, c: u8, d: u8, e: u8, f: u8, g: u8, h: u8) -> u64 {
    let hash = step(step(step(step(hash, a), b), c), d);
    step(step(step(step(hash, e), f), g), h)
}

/// The place of the family whose name has a hash.
spec fn hash_place(hash: u64) -> int {
    if hash == 0x4217265b99da9ace {
        0
    } else if hash == 0xf2bc3d7ef9e9125e {
        1
    } else if hash == 0x2c462c11d4030c47 {
        2
    } else if hash == 0xa7e0aabcc4ca7200 {
        3
    } else if hash == 0xd4a8477880f72088 {
        4
    } else if hash == 0xbd188641d83efaa6 {
        5
    } else if hash == 0x9fa272982f59d033 {
        6
    } else if hash == 0x9305d41d6bff8b33 {
        7
    } else if hash == 0xacfe57f4db6c6ff2 {
        8
    } else if hash == 0x6d99d490635a7327 {
        9
    } else if hash == 0x7634516981c9e66b {
        10
    } else if hash == 0xc0df104e137cc821 {
        11
    } else if hash == 0x9e53726709074693 {
        12
    } else if hash == 0xa78e5c2e8299f711 {
        13
    } else if hash == 0x2be978dc8be22b77 {
        14
    } else if hash == 0x3d7263cfe9bc3a4 {
        15
    } else if hash == 0xf2f50430eaa9c9d9 {
        16
    } else if hash == 0xfdd42088fb22972b {
        17
    } else if hash == 0x48e03bd8deaa9d88 {
        18
    } else if hash == 0x9003b017db10e556 {
        19
    } else if hash == 0x3b9e62c9e986abcb {
        20
    } else if hash == 0x816c943c81215d0d {
        21
    } else {
        -1
    }
}

/// Whether a family can be registered, and its name has the hash of a place.
spec fn takes_place(desc: FamilyDesc, place: int) -> bool {
    &&& families::valid_family(desc.name, desc.help, desc.labels)
    &&& !desc.labels.contains("le"@)
    &&& hash_place(families::family_hash(desc.name)) == place
}

/// What makes a family one that takes a place.
proof fn lemma_takes_place(desc: FamilyDesc, hash: u64)
    requires
        families::valid_ident(desc.name, true),
        desc.help.len() > 0,
        in_place(desc.labels, desc.labels.len()),
        families::fnv_step(chars_hash(desc.name, desc.name.len()), 0xff) == hash,
    ensures
        takes_place(desc, hash_place(hash)),
{
    lemma_labels_are_allowed(desc.labels, desc.labels.len());
    families::lemma_names_are_ascii(desc.name);
    lemma_chars_hash(desc.name, desc.name.len());
}

/// The hash of the first characters of a text of single bytes.
spec fn chars_hash(name: Seq<char>, n: nat) -> u64
    decreases n,
{
    if n == 0 {
        families::FNV_START
    } else {
        families::fnv_step(chars_hash(name, (n - 1) as nat), name[n - 1] as u8)
    }
}

proof fn lemma_chars_hash(name: Seq<char>, n: nat)
    requires
        n <= name.len(),
        vstd::utf8::encode_utf8(name).len() == name.len(),
        forall|i: int|
            0 <= i < name.len() ==> #[trigger] vstd::utf8::encode_utf8(name)[i] == name[i] as u8,
    ensures
        families::fnv_prefix(vstd::utf8::encode_utf8(name).push(0xff), n) == chars_hash(name, n),
    decreases n,
{
    if n > 0 {
        lemma_chars_hash(name, (n - 1) as nat);
    }
}

/// Each counter family takes its place.
#[verifier::rlimit(100)]
#[verifier::spinoff_prover]
proof fn lemma_counter_takes_place(k: int)
    requires
        0 <= k < 12,
    ensures
        takes_place(counter_families()[k], k),
{
    reveal_with_fuel(in_place, 5);
    reveal_with_fuel(families::ident_prefix, 38);
    reveal_with_fuel(chars_hash, 38);
    lemma_label_places();
    let desc = counter_families()[k];
    if k == 0 {
        reveal_strlit("http_requests_total");
        reveal_strlit("HTTP responses by status");
        assert({
            let hash = mixed(families::FNV_START, 0x68, 0x74, 0x74, 0x70, 0x5f, 0x72, 0x65, 0x71);
            let hash = mixed(hash, 0x75, 0x65, 0x73, 0x74, 0x73, 0x5f, 0x74, 0x6f);
            let hash = step(step(hash, 0x74), 0x61);
            step(step(hash, 0x6c), 0xff) == 0x4217265b99da9ace
        }) by (bit_vector);
        lemma_takes_place(desc, 0x4217265b99da9ace);
    }
    if k == 1 {
        reveal_strlit("http_requests_by_ip_total");
        reveal_strlit("HTTP requests by client IP");
        assert({
            let hash = mixed(families::FNV_START, 0x68, 0x74, 0x74, 0x70, 0x5f, 0x72, 0x65, 0x71);
            let hash = mixed(hash, 0x75, 0x65, 0x73, 0x74, 0x73, 0x5f, 0x62, 0x79);
            let hash = mixed(hash, 0x5f, 0x69, 0x70, 0x5f, 0x74, 0x6f, 0x74, 0x61);
            step(step(hash, 0x6c), 0xff) == 0xf2bc3d7ef9e9125e
        }) by (bit_vector);
        lemma_takes_place(desc, 0xf2bc3d7ef9e9125e);
    }
    if k == 2 {
        reveal_strlit("http_429_total");
        reveal_strlit("HTTP 429 responses");
        assert({
            let hash = mixed(families::FNV_START, 0x68, 0x74, 0x74, 0x70, 0x5f, 0x34, 0x32, 0x39);
            let hash = step(step(hash, 0x5f), 0x74);
            let hash = step(step(hash, 0x6f), 0x74);
            let hash = step(step(hash, 0x61), 0x6c);
            step(hash, 0xff) == 0x2c462c11d4030c47
        }) by (bit_vector);
        lemma_takes_place(desc, 0x2c462c11d4030c47);
    }
    if k == 3 {
        reveal_strlit("jsonrpc_method_total");
        reveal_strlit("JSON-RPC method call count");
        assert({
            let hash = mixed(families::FNV_START, 0x6a, 0x73, 0x6f, 0x6e, 0x72, 0x70, 0x63, 0x5f);
            let hash = mixed(hash, 0x6d, 0x65, 0x74, 0x68, 0x6f, 0x64, 0x5f, 0x74);
            let hash = step(step(hash, 0x6f), 0x74);
            let hash = step(step(hash, 0x61), 0x6c);
            step(hash, 0xff) == 0xa7e0aabcc4ca7200
        }) by (bit_vector);
        lemma_takes_place(desc, 0xa7e0aabcc4ca7200);
    }
    if k == 4 {
        reveal_strlit("rpc_upstream_errors_total");
        reveal_strlit("Upstream JSON-RPC transport errors");
        assert({
            let hash = mixed(families::FNV_START, 0x72, 0x70, 0x63, 0x5f, 0x75, 0x70, 0x73, 0x74);
            let hash = mixed(hash, 0x72, 0x65, 0x61, 0x6d, 0x5f, 0x65, 0x72, 0x72);
            let hash = mixed(hash, 0x6f, 0x72, 0x73, 0x5f, 0x74, 0x6f, 0x74, 0x61);
            step(step(hash, 0x6c), 0xff) == 0xd4a8477880f72088
        }) by (bit_vector);
        lemma_takes_place(desc, 0xd4a8477880f72088);
    }
    if k == 5 {
        reveal_strlit("rpc_upstream_non_success_total");
        reveal_strlit("Upstream JSON-RPC non-success HTTP responses");
        assert({
            let hash = mixed(families::FNV_START, 0x72, 0x70, 0x63, 0x5f, 0x75, 0x70, 0x73, 0x74);
            let hash = mixed(hash, 0x72, 0x65, 0x61, 0x6d, 0x5f, 0x6e, 0x6f, 0x6e);
            let hash = mixed(hash, 0x5f, 0x73, 0x75, 0x63, 0x63, 0x65, 0x73, 0x73);
            let hash = step(step(hash, 0x5f), 0x74);
            let hash = step(step(hash, 0x6f), 0x74);
            let hash = step(step(hash, 0x61), 0x6c);
            step(hash, 0xff) == 0xbd188641d83efaa6
        }) by (bit_vector);
        lemma_takes_place(desc, 0xbd188641d83efaa6);
    }
    if k == 6 {
        reveal_strlit("sse_ingest_total");
        reveal_strlit("SSE events ingested from upstream");
        assert({
            let hash = mixed(families::FNV_START, 0x73, 0x73, 0x65, 0x5f, 0x69, 0x6e, 0x67, 0x65);
            let hash = mixed(hash, 0x73, 0x74, 0x5f, 0x74, 0x6f, 0x74, 0x61, 0x6c);
            step(hash, 0xff) == 0x9fa272982f59d033
        }) by (bit_vector);
        lemma_takes_place(desc, 0x9fa272982f59d033);
    }
    if k == 7 {
        reveal_strlit("sse_backlog_dropped_total");
        reveal_strlit("SSE backlog events dropped due to limits");
        assert({
            let hash = mixed(families::FNV_START, 0x73, 0x73, 0x65, 0x5f, 0x62, 0x61, 0x63, 0x6b);
            let hash = mixed(hash, 0x6c, 0x6f, 0x67, 0x5f, 0x64, 0x72, 0x6f, 0x70);
            let hash = mixed(hash, 0x70, 0x65, 0x64, 0x5f, 0x74, 0x6f, 0x74, 0x61);
            step(step(hash, 0x6c), 0xff) == 0x9305d41d6bff8b33
        }) by (bit_vector);
        lemma_takes_place(desc, 0x9305d41d6bff8b33);
    }
    if k == 8 {
        reveal_strlit("sse_reconnect_total");
        reveal_strlit("SSE listener reconnects");
        assert({
            let hash = mixed(families::FNV_START, 0x73, 0x73, 0x65, 0x5f, 0x72, 0x65, 0x63, 0x6f);
            let hash = mixed(hash, 0x6e, 0x6e, 0x65, 0x63, 0x74, 0x5f, 0x74, 0x6f);
            let hash = step(step(hash, 0x74), 0x61);
            step(step(hash, 0x6c), 0xff) == 0xacfe57f4db6c6ff2
        }) by (bit_vector);
        lemma_takes_place(desc, 0xacfe57f4db6c6ff2);
    }
    if k == 9 {
        reveal_strlit("binary_requests_total");
        reveal_strlit("Binary port requests received");
        assert({
            let hash = mixed(families::FNV_START, 0x62, 0x69, 0x6e, 0x61, 0x72, 0x79, 0x5f, 0x72);
            let hash = mixed(hash, 0x65, 0x71, 0x75, 0x65, 0x73, 0x74, 0x73, 0x5f);
            let hash = step(step(hash, 0x74), 0x6f);
            let hash = step(step(hash, 0x74), 0x61);
            step(step(hash, 0x6c), 0xff) == 0x6d99d490635a7327
        }) by (bit_vector);
        lemma_takes_place(desc, 0x6d99d490635a7327);
    }
    if k == 10 {
        reveal_strlit("binary_responses_total");
        reveal_strlit("Binary port responses returned");
        assert({
            let hash = mixed(families::FNV_START, 0x62, 0x69, 0x6e, 0x61, 0x72, 0x79, 0x5f, 0x72);
            let hash = mixed(hash, 0x65, 0x73, 0x70, 0x6f, 0x6e, 0x73, 0x65, 0x73);
            let hash = step(step(hash, 0x5f), 0x74);
            let hash = step(step(hash, 0x6f), 0x74);
            let hash = step(step(hash, 0x61), 0x6c);
            step(hash, 0xff) == 0x7634516981c9e66b
        }) by (bit_vector);
        lemma_takes_place(desc, 0x7634516981c9e66b);
    }
    if k == 11 {
        reveal_strlit("db_migrations_total");
        reveal_strlit("Database migrations outcomes");
        assert({
            let hash = mixed(families::FNV_START, 0x64, 0x62, 0x5f, 0x6d, 0x69, 0x67, 0x72, 0x61);
            let hash = mixed(hash, 0x74, 0x69, 0x6f, 0x6e, 0x73, 0x5f, 0x74, 0x6f);
            let hash = step(step(hash, 0x74), 0x61);
            step(step(hash, 0x6c), 0xff) == 0xc0df104e137cc821
        }) by (bit_vector);
        lemma_takes_place(desc, 0xc0df104e137cc821);
    }
}

/// Each gauge family takes its place.
#[verifier::rlimit(100)]
#[verifier::spinoff_prover]
proof fn lemma_gauge_takes_place(k: int)
    requires
        0 <= k < 5,
    ensures
        takes_place(gauge_families()[k], 12 + k),
{
    reveal_with_fuel(in_place, 5);
    reveal_with_fuel(families::ident_prefix, 38);
    reveal_with_fuel(chars_hash, 38);
    lemma_label_places();
    let desc = gauge_families()[k];
    if k == 0 {
        reveal_strlit("sse_backlog_size");
        reveal_strlit("Current SSE backlog size");
        assert({
            let hash = mixed(families::FNV_START, 0x73, 0x73, 0x65, 0x5f, 0x62, 0x61, 0x63, 0x6b);
            let hash = mixed(hash, 0x6c, 0x6f, 0x67, 0x5f, 0x73, 0x69, 0x7a, 0x65);
            step(hash, 0xff) == 0x9e53726709074693
        }) by (bit_vector);
        lemma_takes_place(desc, 0x9e53726709074693);
    }
    if k == 1 {
        reveal_strlit("sse_connections");
        reveal_strlit("Active SSE/WS event stream connections");
        assert({
            let hash = mixed(families::FNV_START, 0x73, 0x73, 0x65, 0x5f, 0x63, 0x6f, 0x6e, 0x6e);
            let hash = mixed(hash, 0x65, 0x63, 0x74, 0x69, 0x6f, 0x6e, 0x73, 0xff);
            hash == 0xa78e5c2e8299f711
        }) by (bit_vector);
        lemma_takes_place(desc, 0xa78e5c2e8299f711);
    }
    if k == 2 {
        reveal_strlit("binary_connections");
        reveal_strlit("Active binary websocket connections");
        assert({
            let hash = mixed(families::FNV_START, 0x62, 0x69, 0x6e, 0x61, 0x72, 0x79, 0x5f, 0x63);
            let hash = mixed(hash, 0x6f, 0x6e, 0x6e, 0x65, 0x63, 0x74, 0x69, 0x6f);
            let hash = step(step(hash, 0x6e), 0x73);
            step(hash, 0xff) == 0x2be978dc8be22b77
        }) by (bit_vector);
        lemma_takes_place(desc, 0x2be978dc8be22b77);
    }
    if k == 3 {
        reveal_strlit("binary_inflight_requests");
        reveal_strlit("Binary port requests in flight");
        assert({
            let hash = mixed(families::FNV_START, 0x62, 0x69, 0x6e, 0x61, 0x72, 0x79, 0x5f, 0x69);
            let hash = mixed(hash, 0x6e, 0x66, 0x6c, 0x69, 0x67, 0x68, 0x74, 0x5f);
            let hash = mixed(hash, 0x72, 0x65, 0x71, 0x75, 0x65, 0x73, 0x74, 0x73);
            step(hash, 0xff) == 0x3d7263cfe9bc3a4
        }) by (bit_vector);
        lemma_takes_place(desc, 0x3d7263cfe9bc3a4);
    }
    if k == 4 {
        reveal_strlit("db_pool_connections");
        reveal_strlit("Database pool connection counts");
        assert({
            let hash = mixed(families::FNV_START, 0x64, 0x62, 0x5f, 0x70, 0x6f, 0x6f, 0x6c, 0x5f);
            let hash = mixed(hash, 0x63, 0x6f, 0x6e, 0x6e, 0x65, 0x63, 0x74, 0x69);
            let hash = step(step(hash, 0x6f), 0x6e);
            step(step(hash, 0x73), 0xff) == 0xf2f50430eaa9c9d9
        }) by (bit_vector);
        lemma_takes_place(desc, 0xf2f50430eaa9c9d9);
    }
}

/// Each histogram family takes its place.
#[verifier::rlimit(100)]
#[verifier::spinoff_prover]
proof fn lemma_histogram_takes_place(k: int)
    requires
        0 <= k < 5,
    ensures
        takes_place(histogram_families()[k], 17 + k),
{
    reveal_with_fuel(in_place, 5);
    reveal_with_fuel(families::ident_prefix, 38);
    reveal_with_fuel(chars_hash, 38);
    lemma_label_places();
    let desc = histogram_families()[k];
    if k == 0 {
        reveal_strlit("http_request_duration_seconds");
        reveal_strlit("HTTP request duration in seconds");
        assert({
            let hash = mixed(families::FNV_START, 0x68, 0x74, 0x74, 0x70, 0x5f, 0x72, 0x65, 0x71);
            let hash = mixed(hash, 0x75, 0x65, 0x73, 0x74, 0x5f, 0x64, 0x75, 0x72);
            let hash = mixed(hash, 0x61, 0x74, 0x69, 0x6f, 0x6e, 0x5f, 0x73, 0x65);
            let hash = step(step(hash, 0x63), 0x6f);
            let hash = step(step(hash, 0x6e), 0x64);
            step(step(hash, 0x73), 0xff) == 0xfdd42088fb22972b
        }) by (bit_vector);
        lemma_takes_place(desc, 0xfdd42088fb22972b);
    }
    if k == 1 {
        reveal_strlit("rpc_upstream_duration_seconds");
        reveal_strlit("Upstream JSON-RPC request duration in seconds");
        assert({
            let hash = mixed(families::FNV_START, 0x72, 0x70, 0x63, 0x5f, 0x75, 0x70, 0x73, 0x74);
            let hash = mixed(hash, 0x72, 0x65, 0x61, 0x6d, 0x5f, 0x64, 0x75, 0x72);
            let hash = mixed(hash, 0x61, 0x74, 0x69, 0x6f, 0x6e, 0x5f, 0x73, 0x65);
            let hash = step(step(hash, 0x63), 0x6f);
            let hash = step(step(hash, 0x6e), 0x64);
            step(step(hash, 0x73), 0xff) == 0x48e03bd8deaa9d88
        }) by (bit_vector);
        lemma_takes_place(desc, 0x48e03bd8deaa9d88);
    }
    if k == 2 {
        reveal_strlit("sse_time_to_first_api_version_seconds");
        reveal_strlit("Time to first ApiVersion event after connecting");
        assert({
            let hash = mixed(families::FNV_START, 0x73, 0x73, 0x65, 0x5f, 0x74, 0x69, 0x6d, 0x65);
            let hash = mixed(hash, 0x5f, 0x74, 0x6f, 0x5f, 0x66, 0x69, 0x72, 0x73);
            let hash = mixed(hash, 0x74, 0x5f, 0x61, 0x70, 0x69, 0x5f, 0x76, 0x65);
            let hash = mixed(hash, 0x72, 0x73, 0x69, 0x6f, 0x6e, 0x5f, 0x73, 0x65);
            let hash = step(step(hash, 0x63), 0x6f);
            let hash = step(step(hash, 0x6e), 0x64);
            step(step(hash, 0x73), 0xff) == 0x9003b017db10e556
        }) by (bit_vector);
        lemma_takes_place(desc, 0x9003b017db10e556);
    }
    if k == 3 {
        reveal_strlit("binary_queue_wait_seconds");
        reveal_strlit("Time waiting for a binary pool connection");
        assert({
            let hash = mixed(families::FNV_START, 0x62, 0x69, 0x6e, 0x61, 0x72, 0x79, 0x5f, 0x71);
            let hash = mixed(hash, 0x75, 0x65, 0x75, 0x65, 0x5f, 0x77, 0x61, 0x69);
            let hash = mixed(hash, 0x74, 0x5f, 0x73, 0x65, 0x63, 0x6f, 0x6e, 0x64);
            step(step(hash, 0x73), 0xff) == 0x3b9e62c9e986abcb
        }) by (bit_vector);
        lemma_takes_place(desc, 0x3b9e62c9e986abcb);
    }
    if k == 4 {
        reveal_strlit("db_pool_wait_seconds");
        reveal_strlit("Database connection checkout wait time in seconds");
        assert({
            let hash = mixed(families::FNV_START, 0x64, 0x62, 0x5f, 0x70, 0x6f, 0x6f, 0x6c, 0x5f);
            let hash = mixed(hash, 0x77, 0x61, 0x69, 0x74, 0x5f, 0x73, 0x65, 0x63);
            let hash = step(step(hash, 0x6f), 0x6e);
            let hash = step(step(hash, 0x64), 0x73);
            step(hash, 0xff) == 0x816c943c81215d0d
        }) by (bit_vector);
        lemma_takes_place(desc, 0x816c943c81215d0d);
    }
}

/// A registry can take every family of the proxy.
pub proof fn law_families_are_allowed(k: int)
    requires
        0 <= k < metric_families().len(),
    ensures
        families::valid_family(
            metric_families()[k].name,
            metric_families()[k].help,
            metric_families()[k].labels,
        ),
        !metric_families()[k].labels.contains("le"@),
{
    lemma_family_takes_place(k);
}

/// The names of two families of the proxy have different hashes.
pub proof fn law_names_hash_apart(i: int, j: int)
    requires
        0 <= i < j < metric_families().len(),
    ensures
        families::family_hash(metric_families()[i].name) != families::family_hash(
            metric_families()[j].name,
        ),
{
    lemma_family_takes_place(i);
    lemma_family_takes_place(j);
}

/// Each family takes its place.
proof fn lemma_family_takes_place(k: int)
    requires
        0 <= k < metric_families().len(),
    ensures
        takes_place(metric_families()[k], k),
{
    if k < 12 {
        lemma_counter_takes_place(k);
    } else if k < 17 {
        lemma_gauge_takes_place(k - 12);
    } else {
        lemma_histogram_takes_place(k - 17);
    }
}

} // verus!
