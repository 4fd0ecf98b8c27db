//! Which database is meant, and what its rows make.

use std::time::Duration;
use vstd::prelude::*;
use vstd::string::*;

use crate::metrics::AppMetrics;
use crate::models;
use crate::models::{ConfigRow, NetworkConfig, NetworkConfigView, NetworkRow};
use crate::text::{chars_of, join, same_text};

verus! {

/// A supported database.
#[derive(Clone, Copy, Debug, PartialEq, Eq, Structural)]
pub enum DbBackend {
    Sqlite,
    Postgres,
}

/// Whether the mark behind a scheme stands at a place of a text.
pub open spec fn mark_at(text: Seq<char>, i: int) -> bool {
    0 <= i && i + 3 <= text.len() && text[i] == ':' && text[i + 1] == '/' && text[i + 2] == '/'
}

/// The scheme of an address: what stands before the first mark.
#[verifier::opaque]
pub open spec fn scheme_of(url: Seq<char>) -> Option<Seq<char>> {
    if exists|i: int| mark_at(url, i) {
        let end = choose|i: int|
            mark_at(url, i) && forall|j: int| 0 <= j < i ==> !mark_at(url, j);
        Some(url.take(end))
    } else {
        None
    }
}

/// The database that an address means.
pub open spec fn backend_of(url: Seq<char>) -> Result<DbBackend, Seq<char>> {
    match scheme_of(url) {
        None => Ok(DbBackend::Sqlite),
        Some(scheme) => if scheme == "postgres"@ || scheme == "postgresql"@ {
            Ok(DbBackend::Postgres)
        } else if scheme == "sqlite"@ {
            Ok(DbBackend::Sqlite)
        } else {
            Err("unsupported DATABASE_URL scheme: "@ + scheme)
        },
    }
}

/// Finds the first mark.
fn find_mark(chars: &Vec<char>) -> (r: Option<usize>)
    ensures
        match r {
            Some(i) => mark_at(chars@, i as int) && forall|j: int|
                0 <= j < i ==> !#[trigger] mark_at(chars@, j),
            None => forall|j: int| !#[trigger] mark_at(chars@, j),
        },
{
    let n = chars.len();
    for i in 0..n
        invariant
            n == chars@.len(),
            forall|j: int| 0 <= j < i ==> !#[trigger] mark_at(chars@, j),
    {
        if n - i >= 3 && chars[i] == ':' && chars[i + 1] == '/' && chars[i + 2] == '/' {
            return Some(i);
        }
    }
    None
}

/// The database that an address means, or why it means none.
pub fn backend_from_url(database_url: &str) -> (r: Result<DbBackend, String>)
    ensures
        match r {
            Ok(backend) => backend_of(database_url@) == Ok::<DbBackend, Seq<char>>(backend),
            Err(message) => backend_of(database_url@) == Err::<DbBackend, Seq<char>>(message@),
        },
{
    let chars = chars_of(database_url);
    let end = match find_mark(&chars) {
        Some(end) => end,
        None => {
            assert(scheme_of(database_url@) is None) by {
                reveal(scheme_of);
            }
            return Ok(DbBackend::Sqlite);
        },
    };
    let scheme = database_url.substring_char(0, end);
    proof {
        lemma_scheme(database_url@, end as int);
        assert(database_url@.subrange(0, end as int) =~= database_url@.take(end as int));
    }
    if same_text(scheme, "postgres") || same_text(scheme, "postgresql") {
        Ok(DbBackend::Postgres)
    } else if same_text(scheme, "sqlite") {
        Ok(DbBackend::Sqlite)
    } else {
        Err(join("unsupported DATABASE_URL scheme: ", scheme))
    }
}

/// The first mark ends the scheme.
proof fn lemma_scheme(url: Seq<char>, end: int)
    requires
        mark_at(url, end),
        forall|j: int| 0 <= j < end ==> !#[trigger] mark_at(url, j),
    ensures
        scheme_of(url) == Some(url.take(end)),
{
    reveal(scheme_of);
    let i = choose|i: int| mark_at(url, i) && forall|j: int| 0 <= j < i ==> !mark_at(url, j);
    assert(mark_at(url, i));
    assert(i == end);
}

/// What is behind the first mark does not change which database is meant.
pub proof fn law_scheme_decides(scheme: Seq<char>, a: Seq<char>, b: Seq<char>)
    requires
        forall|i: int| 0 <= i < scheme.len() ==> #[trigger] scheme[i] != ':',
    ensures
        scheme_of(scheme + "://"@ + a) == Some(scheme),
        backend_of(scheme + "://"@ + a) == backend_of(scheme + "://"@ + b),
{
    lemma_scheme_before_mark(scheme, a);
    lemma_scheme_before_mark(scheme, b);
}

proof fn lemma_scheme_before_mark(scheme: Seq<char>, rest: Seq<char>)
    requires
        forall|i: int| 0 <= i < scheme.len() ==> #[trigger] scheme[i] != ':',
    ensures
        scheme_of(scheme + "://"@ + rest) == Some(scheme),
{
    reveal_strlit("://");
    let url = scheme + "://"@ + rest;
    let n = scheme.len() as int;
    assert("://"@ =~= seq![':', '/', '/']);
    assert(url[n] == ':' && url[n + 1] == '/' && url[n + 2] == '/');
    assert(mark_at(url, n));
    assert forall|j: int| 0 <= j < n implies !#[trigger] mark_at(url, j) by {
        assert(url[j] == scheme[j]);
    }
    lemma_scheme(url, n);
    assert(url.take(n) =~= scheme);
}

/// Takes the outcome of the migrations, and how long a connection was waited
/// for if there was one, and counts it.
pub fn run_migrations(
    metrics: &mut AppMetrics,
    waited: Option<Duration>,
    outcome: Result<(), String>,
) -> (r: Result<(), String>)
    requires
        old(metrics).wf(),
    ensures
        final(metrics).wf(),
        final(metrics).families() == old(metrics).families(),
        final(metrics)@ == (match waited {
            Some(duration) => old(metrics)@.db_pool_timed("migrations"@, duration),
            None => old(metrics)@,
        }).db_migration_counted(
            if outcome is Ok {
                "success"@
            } else {
                "failure"@
            },
        ),
        r == outcome,
{
    if let Some(waited) = waited {
        metrics.observe_db_pool_wait("migrations", waited);
    }
    match &outcome {
        Ok(()) => metrics.increment_db_migration("success"),
        Err(_) => metrics.increment_db_migration("failure"),
    }
    outcome
}

/// The configurations that rows make.
pub open spec fn configs_of(rows: Seq<(NetworkRow, ConfigRow)>) -> Seq<NetworkConfigView> {
    rows.map_values(|row: (NetworkRow, ConfigRow)| models::merged(row.0, row.1))
}

/// Takes the joined rows of networks and configurations, and how long a
/// connection was waited for, and makes configurations of them, in their order.
pub fn load_networks(
    metrics: &mut AppMetrics,
    waited: Duration,
    rows: Result<Vec<(NetworkRow, ConfigRow)>, String>,
) -> (r: Result<Vec<NetworkConfig>, String>)
    requires
        old(metrics).wf(),
    ensures
        final(metrics).wf(),
        final(metrics).families() == old(metrics).families(),
        final(metrics)@ == old(metrics)@.db_pool_timed("load_networks"@, waited),
        match rows {
            Ok(rows) => r matches Ok(configs) && models::config_views(configs@) == configs_of(
                rows@,
            ),
            Err(text) => r == Err::<Vec<NetworkConfig>, String>(text),
        },
{
    metrics.observe_db_pool_wait("load_networks", waited);
    let rows = match rows {
        Ok(rows) => rows,
        Err(text) => {
            return Err(text);
        },
    };
    let mut configs: Vec<NetworkConfig> = Vec::new();
    for row in it: rows
        invariant
            it.seq() == rows@,
            models::config_views(configs@) == configs_of(rows@.take(it.index() as int)),
    {
        let ghost before = configs@;
        let (network, config) = row;
        assert(configs_of(rows@.take(it.index() + 1)) =~= configs_of(
            rows@.take(it.index() as int),
        ).push(models::merged(network, config)));
        configs.push(NetworkConfig::from_rows(network, config));
        assert(models::config_views(configs@) =~= models::config_views(before).push(
            models::merged(network, config),
        ));
    }
    assert(rows@.take(rows@.len() as int) =~= rows@);
    Ok(configs)
}

/// An address whose scheme is `postgres`, `postgresql` or `sqlite` means a
/// database, and every other scheme is refused by name.
pub proof fn law_three_schemes_are_supported(scheme: Seq<char>, rest: Seq<char>)
    requires
        forall|i: int| 0 <= i < scheme.len() ==> #[trigger] scheme[i] != ':',
    ensures
        backend_of("postgres"@ + "://"@ + rest) == Ok::<DbBackend, Seq<char>>(DbBackend::Postgres),
        backend_of("postgresql"@ + "://"@ + rest) == Ok::<DbBackend, Seq<char>>(
            DbBackend::Postgres,
        ),
        backend_of("sqlite"@ + "://"@ + rest) == Ok::<DbBackend, Seq<char>>(DbBackend::Sqlite),
        scheme != "postgres"@ && scheme != "postgresql"@ && scheme != "sqlite"@ ==> backend_of(
            scheme + "://"@ + rest,
        ) == Err::<DbBackend, Seq<char>>("unsupported DATABASE_URL scheme: "@ + scheme),
{
    lemma_known_schemes();
    lemma_scheme_before_mark("postgres"@, rest);
    lemma_scheme_before_mark("postgresql"@, rest);
    lemma_scheme_before_mark("sqlite"@, rest);
    lemma_scheme_before_mark(scheme, rest);
}

/// No known scheme holds a colon, and that of the embedded database is not one
/// of the others.
proof fn lemma_known_schemes()
    ensures
        forall|i: int| 0 <= i < "postgres"@.len() ==> #[trigger] "postgres"@[i] != ':',
        forall|i: int| 0 <= i < "postgresql"@.len() ==> #[trigger] "postgresql"@[i] != ':',
        forall|i: int| 0 <= i < "sqlite"@.len() ==> #[trigger] "sqlite"@[i] != ':',
        "sqlite"@ != "postgres"@,
        "sqlite"@ != "postgresql"@,
{
    reveal_strlit("postgres");
    reveal_strlit("postgresql");
    reveal_strlit("sqlite");
    assert("postgres"@.len() == 8 && "postgresql"@.len() == 10 && "sqlite"@.len() == 6);
}

/// An address without a mark means the embedded database.
pub proof fn law_paths_mean_the_embedded_database(url: Seq<char>)
    requires
        forall|i: int| !#[trigger] mark_at(url, i),
    ensures
        backend_of(url) == Ok::<DbBackend, Seq<char>>(DbBackend::Sqlite),
{
    reveal(scheme_of);
}

/// Each pair of rows makes one configuration, in the order of the rows: the
/// names are those of the network, the addresses those of the configuration.
pub proof fn law_each_pair_of_rows_makes_a_configuration(
    rows: Seq<(NetworkRow, ConfigRow)>,
    i: int,
)
    requires
        0 <= i < rows.len(),
    ensures
        configs_of(rows).len() == rows.len(),
        configs_of(rows)[i].network_name == rows[i].0.network_name@,
        configs_of(rows)[i].chain_name == rows[i].0.chain_name@,
        configs_of(rows)[i].rest == rows[i].1.rest@,
        configs_of(rows)[i].sse == rows[i].1.sse@,
        configs_of(rows)[i].rpc == rows[i].1.rpc@,
        configs_of(rows)[i].binary == rows[i].1.binary@,
        configs_of(rows)[i].gossip == rows[i].1.gossip@,
{
}

} // verus!
