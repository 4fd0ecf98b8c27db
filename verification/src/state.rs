//! State shared by the handlers: networks, their event streams and metrics.

use serde_json::Value;
use std::collections::VecDeque;
use vstd::prelude::*;

use crate::binary_proxy::{BinaryPool, PoolView};
use crate::config::AppConfig;
use crate::json;
use crate::json::{copy_json, Json};
use crate::metrics::AppMetrics;
use crate::models::{NetworkConfig, NetworkConfigView};
use crate::text::same_text;

verus! {

/// Event envelope with a monotonically increasing identifier.
#[derive(Debug)]
pub struct EventEnvelope {
    pub id: u64,
    pub data: Value,
}

/// The view of [`EventEnvelope`].
pub struct EventView {
    pub id: u64,
    pub data: Json,
}

impl View for EventEnvelope {
    type V = EventView;

    open spec fn view(&self) -> EventView {
        EventView { id: self.id, data: json::json_tree(self.data) }
    }
}

impl EventEnvelope {
    /// A copy of the envelope.
    pub fn duplicate(&self) -> (r: EventEnvelope)
        ensures
            r@ == self@,
    {
        EventEnvelope { id: self.id, data: copy_json(&self.data) }
    }
}

/// The views of a list of events.
pub open spec fn event_views(events: Seq<EventEnvelope>) -> Seq<EventView> {
    events.map_values(|event: EventEnvelope| event@)
}

/// The recent events of a network, and the api version that it reported.
pub struct EventBus {
    backlog: VecDeque<EventEnvelope>,
    last_id: u64,
    backlog_limit: usize,
    broadcast_capacity: usize,
    api_version: Option<Value>,
}

/// The view of [`EventBus`].
#[verifier::ext_equal]
pub struct BusView {
    pub backlog: Seq<EventView>,
    pub last_id: nat,
    pub backlog_limit: nat,
    pub broadcast_capacity: nat,
    pub api_version: Option<Json>,
}

/// What an optional value holds.
pub open spec fn optional_tree(value: Option<Value>) -> Option<Json> {
    match value {
        Some(value) => Some(json::json_tree(value)),
        None => None,
    }
}

impl View for EventBus {
    type V = BusView;

    closed spec fn view(&self) -> BusView {
        BusView {
            backlog: event_views(self.backlog@),
            last_id: self.last_id as nat,
            backlog_limit: self.backlog_limit as nat,
            broadcast_capacity: self.broadcast_capacity as nat,
            api_version: optional_tree(self.api_version),
        }
    }
}

/// The larger of a number and one.
pub open spec fn at_least_one(n: nat) -> nat {
    if n == 0 {
        1
    } else {
        n
    }
}

impl BusView {
    /// The backlog holds the latest events, as many as it may hold and as there
    /// were, and their identifiers are consecutive up to the last one.
    pub open spec fn wf(self) -> bool {
        &&& 1 <= self.backlog_limit
        &&& self.last_id <= u64::MAX
        &&& self.backlog.len() == if self.last_id < self.backlog_limit {
            self.last_id
        } else {
            self.backlog_limit
        }
        &&& forall|i: int|
            0 <= i < self.backlog.len() ==> (#[trigger] self.backlog[i]).id == self.last_id
                - self.backlog.len() + i + 1
    }

    /// A bus without events.
    pub open spec fn fresh(backlog_limit: nat, broadcast_capacity: nat) -> BusView {
        BusView {
            backlog: Seq::empty(),
            last_id: 0,
            backlog_limit: at_least_one(backlog_limit),
            broadcast_capacity: at_least_one(broadcast_capacity),
            api_version: None,
        }
    }

    /// The next event, with the given data.
    pub open spec fn next_event(self, data: Json) -> EventView {
        EventView { id: (self.last_id + 1) as u64, data }
    }

    /// The bus after an event.
    pub open spec fn pushed(self, data: Json) -> BusView {
        let longer = self.backlog.push(self.next_event(data));
        BusView {
            backlog: if longer.len() > self.backlog_limit {
                longer.drop_first()
            } else {
                longer
            },
            last_id: self.last_id + 1,
            ..self
        }
    }

    /// The events in the backlog from an identifier on.
    pub open spec fn snapshot(self, start_from: u64) -> Seq<EventView> {
        self.backlog.filter(|event: EventView| event.id >= start_from)
    }
}

impl EventBus {
    /// Creates an event bus with bounded backlog and broadcast capacity.
    pub fn new(backlog_limit: usize, broadcast_capacity: usize) -> (r: Self)
        ensures
            r@ == BusView::fresh(backlog_limit as nat, broadcast_capacity as nat),
            r@.wf(),
    {
        let initial: usize = if backlog_limit < 1024 {
            backlog_limit
        } else {
            1024
        };
        let r = EventBus {
            backlog: VecDeque::with_capacity(initial),
            last_id: 0,
            backlog_limit: if backlog_limit == 0 {
                1
            } else {
                backlog_limit
            },
            broadcast_capacity: if broadcast_capacity == 0 {
                1
            } else {
                broadcast_capacity
            },
            api_version: None,
        };
        assert(event_views(r.backlog@) =~= Seq::<EventView>::empty());
        r
    }

    /// How many events a subscriber may fall behind.
    pub fn broadcast_capacity(&self) -> (r: usize)
        ensures
            r == self@.broadcast_capacity,
    {
        self.broadcast_capacity
    }

    /// The identifier of the last event, 0 before the first.
    pub fn last_id(&self) -> (r: u64)
        ensures
            r == self@.last_id,
    {
        self.last_id
    }

    /// Adds an event to the backlog. What is returned is to be published.
    pub fn push(&mut self, data: Value) -> (r: EventEnvelope)
        requires
            old(self)@.wf(),
            old(self)@.last_id < u64::MAX,
        ensures
            final(self)@.wf(),
            final(self)@ == old(self)@.pushed(json::json_tree(data)),
            r@ == old(self)@.next_event(json::json_tree(data)),
            r.id == old(self)@.last_id + 1,
            r@ == final(self)@.backlog.last(),
    {
        let id = self.last_id + 1;
        self.last_id = id;
        let envelope = EventEnvelope { id, data };
        let ghost longer = old(self)@.backlog.push(envelope@);
        self.backlog.push_back(envelope.duplicate());
        assert(event_views(self.backlog@) =~= longer);
        if self.backlog.len() > self.backlog_limit {
            let ghost before = self.backlog@;
            let _oldest = self.backlog.pop_front();
            assert(event_views(self.backlog@) =~= event_views(before).drop_first());
        }
        envelope
    }

    /// Stores the api version of the upstream, the first time only.
    pub fn remember_api_version(&mut self, data: Value) -> (r: bool)
        ensures
            r == (old(self)@.api_version is None),
            final(self)@ == (BusView {
                api_version: if r {
                    Some(json::json_tree(data))
                } else {
                    old(self)@.api_version
                },
                ..old(self)@
            }),
    {
        match self.api_version {
            Some(_) => false,
            None => {
                self.api_version = Some(data);
                true
            },
        }
    }

    /// The stored api version, if any.
    pub fn api_version(&self) -> (r: Option<Value>)
        ensures
            optional_tree(r) == self@.api_version,
    {
        match &self.api_version {
            Some(value) => Some(copy_json(value)),
            None => None,
        }
    }

    /// The events in the backlog with identifiers from `start_from` on.
    pub fn snapshot_from(&self, start_from: u64) -> (r: Vec<EventEnvelope>)
        ensures
            event_views(r@) == self@.snapshot(start_from),
    {
        let ghost late = |event: EventView| event.id >= start_from;
        let mut r: Vec<EventEnvelope> = Vec::new();
        let n = self.backlog.len();
        for i in 0..n
            invariant
                n == self.backlog@.len(),
                late == |event: EventView| event.id >= start_from,
                event_views(r@) == self@.backlog.take(i as int).filter(late),
        {
            reveal(Seq::filter);
            let event = &self.backlog[i];
            let ghost seen = self@.backlog.take(i as int);
            assert(self@.backlog.take(i + 1) =~= seen.push(event@));
            assert(seen.push(event@).drop_last() =~= seen);
            let ghost before = r@;
            if event.id >= start_from {
                r.push(event.duplicate());
                assert(event_views(r@) =~= event_views(before).push(event@));
            }
        }
        assert(self@.backlog.take(n as int) =~= self@.backlog);
        r
    }
}

/// A bus after a series of events.
pub open spec fn after_all(bus: BusView, data: Seq<Json>) -> BusView
    decreases data.len(),
{
    if data.len() == 0 {
        bus
    } else {
        after_all(bus, data.drop_last()).pushed(data.last())
    }
}

/// The events of a fresh bus are numbered from 1 on, and its backlog holds the
/// latest of them, as many as its limit allows.
pub proof fn law_backlog_holds_the_latest(
    backlog_limit: nat,
    broadcast_capacity: nat,
    data: Seq<Json>,
)
    requires
        data.len() <= u64::MAX,
    ensures
        ({
            let bus = after_all(BusView::fresh(backlog_limit, broadcast_capacity), data);
            &&& bus.wf()
            &&& bus.last_id == data.len()
            &&& bus.backlog_limit == at_least_one(backlog_limit)
            &&& forall|i: int|
                0 <= i < bus.backlog.len() ==> (#[trigger] bus.backlog[i]) == (EventView {
                    id: (data.len() - bus.backlog.len() + i + 1) as u64,
                    data: data[data.len() - bus.backlog.len() + i],
                })
        }),
    decreases data.len(),
{
    if data.len() > 0 {
        law_backlog_holds_the_latest(backlog_limit, broadcast_capacity, data.drop_last());
        let before = after_all(
            BusView::fresh(backlog_limit, broadcast_capacity),
            data.drop_last(),
        );
        let bus = before.pushed(data.last());
        let longer = before.backlog.push(before.next_event(data.last()));
        assert forall|i: int| 0 <= i < bus.backlog.len() implies (#[trigger] bus.backlog[i]) == (
        EventView {
            id: (data.len() - bus.backlog.len() + i + 1) as u64,
            data: data[data.len() - bus.backlog.len() + i],
        }) by {
            let j = if longer.len() > before.backlog_limit {
                i + 1
            } else {
                i
            };
            assert(bus.backlog[i] == longer[j]);
            if j < before.backlog.len() {
                assert(before.backlog[j].data == data.drop_last()[data.len() - 1
                    - before.backlog.len() + j]);
            }
        }
    }
}

/// The identifiers of two events in a row differ by one.
pub proof fn law_identifiers_increase(bus: BusView, first: Json, second: Json)
    requires
        bus.wf(),
        bus.last_id + 2 <= u64::MAX,
    ensures
        bus.pushed(first).next_event(second).id == bus.next_event(first).id + 1,
{
}

/// A snapshot is the end of the backlog that starts at the identifier asked
/// for: it holds that event, where the backlog does, and all that came later.
pub proof fn law_snapshot_is_inclusive(bus: BusView, start_from: u64)
    requires
        bus.wf(),
    ensures
        ({
            let skipped = skipped_by(bus, start_from);
            &&& 0 <= skipped <= bus.backlog.len()
            &&& bus.snapshot(start_from) == bus.backlog.skip(skipped as int)
            &&& skipped < bus.backlog.len() ==> bus.backlog[skipped as int].id >= start_from
            &&& skipped > 0 ==> bus.backlog[skipped - 1].id < start_from
        }),
{
    let late = |event: EventView| event.id >= start_from;
    let skipped = skipped_by(bus, start_from) as int;
    lemma_filter_sorted(bus.backlog, late, skipped);
}

/// How many events of the backlog come before an identifier.
pub open spec fn skipped_by(bus: BusView, start_from: u64) -> nat {
    let first = bus.last_id - bus.backlog.len() + 1;
    if start_from <= first {
        0
    } else if start_from > bus.last_id {
        bus.backlog.len()
    } else {
        (start_from - first) as nat
    }
}

/// A filter that refuses a start and takes the rest keeps the rest.
proof fn lemma_filter_sorted(events: Seq<EventView>, late: spec_fn(EventView) -> bool, skipped: int)
    requires
        0 <= skipped <= events.len(),
        forall|i: int| 0 <= i < events.len() ==> (late(#[trigger] events[i]) <==> i >= skipped),
    ensures
        events.filter(late) == events.skip(skipped),
    decreases events.len(),
{
    reveal(Seq::filter);
    if events.len() > 0 {
        let shorter = events.drop_last();
        if skipped == events.len() {
            lemma_filter_sorted(shorter, late, skipped - 1);
            assert(events.filter(late) =~= events.skip(skipped));
        } else {
            lemma_filter_sorted(shorter, late, skipped);
            assert(events.skip(skipped) =~= shorter.skip(skipped).push(events.last()));
        }
    } else {
        assert(events.skip(skipped) =~= events.filter(late));
    }
}

/// State of one network. `C` is an upstream connection of the binary port.
pub struct NetworkState<C> {
    pub config: NetworkConfig,
    pub events: EventBus,
    pub binary_pool: BinaryPool<C>,
}

/// The view of [`NetworkState`].
#[verifier::ext_equal]
pub struct NetworkView<C> {
    pub config: NetworkConfigView,
    pub events: BusView,
    pub binary_pool: PoolView<C>,
}

impl<C> View for NetworkState<C> {
    type V = NetworkView<C>;

    open spec fn view(&self) -> NetworkView<C> {
        NetworkView {
            config: self.config@,
            events: self.events@,
            binary_pool: self.binary_pool@,
        }
    }
}

impl<C> NetworkView<C> {
    /// The parts are well-formed, and the pool serves the network.
    pub open spec fn wf(self) -> bool {
        &&& self.events.wf()
        &&& self.binary_pool.wf()
        &&& self.binary_pool.network == self.config.network_name
        &&& self.binary_pool.address == self.config.binary
    }
}

/// State shared by the handlers.
pub struct AppState<C> {
    pub networks: Vec<NetworkState<C>>,
    pub metrics: AppMetrics,
    pub binary_rate_limit_per_min: u32,
    pub binary_rate_limit_burst: u32,
}

/// Whether the network of that name stands at a place.
pub open spec fn stands_at<C>(networks: Seq<NetworkState<C>>, name: Seq<char>, i: int) -> bool {
    0 <= i < networks.len() && networks[i]@.config.network_name == name
}

/// The networks by name.
pub open spec fn network_map<C>(networks: Seq<NetworkState<C>>) -> Map<Seq<char>, NetworkView<C>> {
    Map::new(
        |name: Seq<char>| exists|i: int| stands_at(networks, name, i),
        |name: Seq<char>| networks[choose|i: int| stands_at(networks, name, i)]@,
    )
}

/// Whether no name occurs twice.
pub open spec fn names_differ<C>(networks: Seq<NetworkState<C>>) -> bool {
    forall|i: int, j: int|
        0 <= i < j < networks.len() ==> (#[trigger] networks[i])@.config.network_name != (
        #[trigger] networks[j])@.config.network_name
}

/// A network without events and connections.
pub open spec fn fresh_network<C>(
    config: NetworkConfigView,
    settings: crate::config::ConfigView,
) -> NetworkView<C> {
    NetworkView {
        config,
        events: BusView::fresh(
            settings.sse_backlog_limit as nat,
            settings.sse_broadcast_capacity as nat,
        ),
        binary_pool: PoolView {
            network: config.network_name,
            address: config.binary,
            limit: at_least_one(settings.binary_pool_size as nat),
            open: 0,
            idle: Seq::empty(),
        },
    }
}

/// The networks by name that configurations make. Where two configurations
/// have one name, the later one counts.
pub open spec fn configured_networks<C>(
    configs: Seq<NetworkConfig>,
    settings: crate::config::ConfigView,
) -> Map<Seq<char>, NetworkView<C>>
    decreases configs.len(),
{
    if configs.len() == 0 {
        Map::empty()
    } else {
        configured_networks::<C>(configs.drop_last(), settings).insert(
            configs.last()@.network_name,
            fresh_network::<C>(configs.last()@, settings),
        )
    }
}

impl<C> AppState<C> {
    /// Every network is well-formed and no name occurs twice.
    pub open spec fn wf(self) -> bool {
        &&& names_differ(self.networks@)
        &&& forall|i: int| 0 <= i < self.networks@.len() ==> (#[trigger] self.networks@[i])@.wf()
        &&& self.metrics.wf()
    }

    /// Builds the state of the configured networks.
    pub fn new(config: &AppConfig, networks: Vec<NetworkConfig>, metrics: AppMetrics) -> (r: Self)
        requires
            metrics.wf(),
        ensures
            r.wf(),
            r.metrics == metrics,
            r.binary_rate_limit_per_min == config.binary_rate_limit_per_min,
            r.binary_rate_limit_burst == config.binary_rate_limit_burst,
            network_map(r.networks@) == configured_networks::<C>(networks@, config@),
    {
        let mut states: Vec<NetworkState<C>> = Vec::new();
        assert(network_map(states@) =~= Map::<Seq<char>, NetworkView<C>>::empty());
        assert(networks@.take(0) =~= Seq::<NetworkConfig>::empty());
        for i in 0..networks.len()
            invariant
                names_differ(states@),
                forall|j: int| 0 <= j < states@.len() ==> (#[trigger] states@[j])@.wf(),
                network_map(states@) == configured_networks::<C>(networks@.take(i as int), config@),
        {
            let ghost before = states@;
            let state: NetworkState<C> = network_state(&networks[i], config);
            let ghost name = state@.config.network_name;
            assert(networks@.take(i + 1).drop_last() =~= networks@.take(i as int));
            match position(&states, networks[i].network_name.as_str()) {
                Some(k) => {
                    states.set(k, state);
                    proof {
                        lemma_network_map_set(before, k as int, state);
                    }
                },
                None => {
                    states.push(state);
                    proof {
                        lemma_network_map_push(before, state);
                    }
                },
            }
        }
        assert(networks@.take(networks@.len() as int) =~= networks@);
        AppState {
            networks: states,
            metrics,
            binary_rate_limit_per_min: config.binary_rate_limit_per_min,
            binary_rate_limit_burst: config.binary_rate_limit_burst,
        }
    }
}

/// The state of a network at the start.
fn network_state<C>(network: &NetworkConfig, config: &AppConfig) -> (r: NetworkState<C>)
    ensures
        r@ == fresh_network::<C>(network@, config@),
        r@.wf(),
{
    let events = EventBus::new(config.sse_backlog_limit, config.sse_broadcast_capacity);
    let binary_pool = BinaryPool::new(
        network.network_name.clone(),
        network.binary.clone(),
        config.binary_pool_size,
    );
    NetworkState { config: network.clone(), events, binary_pool }
}

/// Finds the place of a network.
pub fn position<C>(networks: &Vec<NetworkState<C>>, name: &str) -> (r: Option<usize>)
    requires
        names_differ(networks@),
    ensures
        match r {
            Some(i) => stands_at(networks@, name@, i as int) && network_map(
                networks@,
            ).contains_key(name@) && network_map(networks@)[name@] == networks@[i as int]@,
            None => !network_map(networks@).contains_key(name@),
        },
{
    for i in 0..networks.len()
        invariant
            names_differ(networks@),
            forall|j: int| 0 <= j < i ==> !#[trigger] stands_at(networks@, name@, j),
    {
        if same_text(networks[i].config.network_name.as_str(), name) {
            assert(stands_at(networks@, name@, i as int));
            assert(forall|j: int| #[trigger] stands_at(networks@, name@, j) ==> j == i as int);
            return Some(i);
        }
    }
    assert(forall|j: int| !#[trigger] stands_at(networks@, name@, j));
    None
}

/// Where a network stands, the map holds it.
proof fn lemma_network_map_at<C>(networks: Seq<NetworkState<C>>, i: int)
    requires
        names_differ(networks),
        0 <= i < networks.len(),
    ensures
        network_map(networks).contains_key(networks[i]@.config.network_name),
        network_map(networks)[networks[i]@.config.network_name] == networks[i]@,
{
    let name = networks[i]@.config.network_name;
    assert(stands_at(networks, name, i));
    let j = choose|j: int| stands_at(networks, name, j);
    assert(stands_at(networks, name, j));
    assert(i == j);
}

proof fn lemma_network_map_set<C>(networks: Seq<NetworkState<C>>, k: int, state: NetworkState<C>)
    requires
        names_differ(networks),
        0 <= k < networks.len(),
        networks[k]@.config.network_name == state@.config.network_name,
    ensures
        names_differ(networks.update(k, state)),
        network_map(networks.update(k, state)) == network_map(networks).insert(
            state@.config.network_name,
            state@,
        ),
{
    let after = networks.update(k, state);
    let name = state@.config.network_name;
    let a = network_map(after);
    let b = network_map(networks).insert(name, state@);
    assert(forall|i: int|
        0 <= i < networks.len() ==> (#[trigger] after[i])@.config.network_name
            == networks[i]@.config.network_name);
    lemma_network_map_at(after, k);
    assert forall|other: Seq<char>| #[trigger] a.contains_key(other) implies b.contains_key(other)
        && a[other] == b[other] by {
        let i = choose|i: int| stands_at(after, other, i);
        assert(stands_at(after, other, i));
        lemma_network_map_at(after, i);
        lemma_network_map_at(networks, i);
    }
    assert forall|other: Seq<char>| #[trigger] b.contains_key(other) implies a.contains_key(
        other,
    ) by {
        if other != name {
            let i = choose|i: int| stands_at(networks, other, i);
            assert(stands_at(networks, other, i));
            lemma_network_map_at(after, i);
        }
    }
    assert(a =~= b);
}

proof fn lemma_network_map_push<C>(networks: Seq<NetworkState<C>>, state: NetworkState<C>)
    requires
        names_differ(networks),
        !network_map(networks).contains_key(state@.config.network_name),
    ensures
        names_differ(networks.push(state)),
        network_map(networks.push(state)) == network_map(networks).insert(
            state@.config.network_name,
            state@,
        ),
{
    let after = networks.push(state);
    let name = state@.config.network_name;
    let n = networks.len() as int;
    let a = network_map(after);
    let b = network_map(networks).insert(name, state@);
    assert forall|i: int| 0 <= i < n implies (#[trigger] networks[i])@.config.network_name
        != name by {
        lemma_network_map_at(networks, i);
    }
    assert(forall|i: int| 0 <= i < n ==> #[trigger] after[i] == networks[i]);
    lemma_network_map_at(after, n);
    assert forall|other: Seq<char>| #[trigger] a.contains_key(other) implies b.contains_key(other)
        && a[other] == b[other] by {
        let i = choose|i: int| stands_at(after, other, i);
        assert(stands_at(after, other, i));
        lemma_network_map_at(after, i);
        if i < n {
            lemma_network_map_at(networks, i);
        }
    }
    assert forall|other: Seq<char>| #[trigger] b.contains_key(other) implies a.contains_key(
        other,
    ) by {
        if other != name {
            let i = choose|i: int| stands_at(networks, other, i);
            assert(stands_at(networks, other, i));
            lemma_network_map_at(after, i);
        }
    }
    assert(a =~= b);
}

/// An event that is added becomes the last of the backlog, under the next
/// identifier. The backlog grows by it up to its limit, from where the oldest
/// event goes; the events that stay keep their order, and nothing else changes.
pub proof fn law_added_events_are_kept(bus: BusView, data: Json)
    requires
        bus.wf(),
        bus.last_id < u64::MAX,
    ensures
        ({
            let after = bus.pushed(data);
            let gone = bus.backlog.len() + 1 - after.backlog.len();
            &&& after.wf()
            &&& after.last_id == bus.last_id + 1
            &&& after.backlog.len() > 0
            &&& after.backlog.last() == (EventView { id: (bus.last_id + 1) as u64, data })
            &&& after.backlog.last() == bus.next_event(data)
            &&& bus.backlog.len() < bus.backlog_limit ==> gone == 0
            &&& bus.backlog.len() == bus.backlog_limit ==> gone == 1
            &&& after.backlog.drop_last() == bus.backlog.skip(gone as int)
            &&& after.backlog_limit == bus.backlog_limit
            &&& after.broadcast_capacity == bus.broadcast_capacity
            &&& after.api_version == bus.api_version
        }),
{
    let after = bus.pushed(data);
    let longer = bus.backlog.push(bus.next_event(data));
    let gone = bus.backlog.len() + 1 - after.backlog.len();
    assert(after.backlog.drop_last() =~= bus.backlog.skip(gone as int));
}

/// A snapshot holds exactly the events of the backlog from the identifier asked
/// for on, in their order: it ends as the backlog ends, and it is the whole
/// backlog where the identifier is not behind the oldest event.
pub proof fn law_snapshots_hold_what_was_asked_for(bus: BusView, start_from: u64, event: EventView)
    requires
        bus.wf(),
    ensures
        bus.snapshot(start_from).contains(event) <==> bus.backlog.contains(event) && event.id
            >= start_from,
        bus.snapshot(start_from).len() <= bus.backlog.len(),
        bus.snapshot(start_from) == bus.backlog.skip(
            bus.backlog.len() - bus.snapshot(start_from).len(),
        ),
        bus.backlog.len() > 0 && start_from <= bus.backlog[0].id ==> bus.snapshot(start_from)
            == bus.backlog,
{
    law_snapshot_is_inclusive(bus, start_from);
    let skipped = skipped_by(bus, start_from) as int;
    let snapshot = bus.snapshot(start_from);
    assert(bus.backlog.len() - snapshot.len() == skipped);
    if snapshot.contains(event) {
        let i = snapshot.index_of(event);
        assert(bus.backlog[skipped + i] == event);
    }
    if bus.backlog.contains(event) && event.id >= start_from {
        let i = bus.backlog.index_of(event);
        assert(bus.backlog[i].id == bus.last_id - bus.backlog.len() + i + 1);
        assert(i >= skipped);
        assert(snapshot[i - skipped] == event);
    }
    if bus.backlog.len() > 0 && start_from <= bus.backlog[0].id {
        assert(skipped == 0);
        assert(bus.backlog.skip(0) =~= bus.backlog);
    }
}

/// A new bus has no events and no api version, and it keeps to the limits that
/// it was given, but for a limit of none, which counts as one.
pub proof fn law_new_buses_are_empty(backlog_limit: nat, broadcast_capacity: nat)
    ensures
        ({
            let bus = BusView::fresh(backlog_limit, broadcast_capacity);
            &&& bus.backlog.len() == 0 && bus.last_id == 0 && bus.api_version is None
            &&& backlog_limit > 0 ==> bus.backlog_limit == backlog_limit
            &&& backlog_limit == 0 ==> bus.backlog_limit == 1
            &&& broadcast_capacity > 0 ==> bus.broadcast_capacity == broadcast_capacity
            &&& broadcast_capacity == 0 ==> bus.broadcast_capacity == 1
        }),
{
}

/// Every configuration that is not followed by another of its name makes a
/// network of that name, with the addresses of the configuration, with the
/// limits of the settings, and without events and connections. No other network
/// is there.
pub proof fn law_every_configuration_makes_a_network<C>(
    configs: Seq<NetworkConfig>,
    settings: crate::config::ConfigView,
    name: Seq<char>,
    i: int,
)
    ensures
        ({
            let networks = configured_networks::<C>(configs, settings);
            &&& networks.contains_key(name) <==> exists|j: int|
                0 <= j < configs.len() && (#[trigger] configs[j])@.network_name == name
            &&& 0 <= i < configs.len() && configs[i]@.network_name == name && (forall|j: int|
                i < j < configs.len() ==> (#[trigger] configs[j])@.network_name != name) ==> {
                let network = networks[name];
                &&& network.config == configs[i]@
                &&& network.events == BusView::fresh(
                    settings.sse_backlog_limit as nat,
                    settings.sse_broadcast_capacity as nat,
                )
                &&& network.binary_pool.network == name
                &&& network.binary_pool.address == configs[i]@.binary
                &&& network.binary_pool.open == 0
                &&& network.binary_pool.idle.len() == 0
                &&& settings.binary_pool_size > 0 ==> network.binary_pool.limit
                    == settings.binary_pool_size
                &&& settings.binary_pool_size == 0 ==> network.binary_pool.limit == 1
            }
        }),
    decreases configs.len(),
{
    if configs.len() > 0 {
        let fewer = configs.drop_last();
        law_every_configuration_makes_a_network::<C>(fewer, settings, name, i);
        assert(forall|j: int| 0 <= j < fewer.len() ==> #[trigger] fewer[j] == configs[j]);
        assert(configs.last() == configs[configs.len() - 1]);
        let networks = configured_networks::<C>(configs, settings);
        if networks.contains_key(name) && configs.last()@.network_name != name {
            let j = choose|j: int|
                0 <= j < fewer.len() && (#[trigger] fewer[j])@.network_name == name;
            assert(configs[j]@.network_name == name);
        }
        if exists|j: int| 0 <= j < configs.len() && (#[trigger] configs[j])@.network_name == name {
            let j = choose|j: int|
                0 <= j < configs.len() && (#[trigger] configs[j])@.network_name == name;
            if j < fewer.len() {
                assert(fewer[j]@.network_name == name);
            }
        }
    }
}

/// Every network is found under its own name, and under no other name is
/// anything found.
pub proof fn law_networks_are_found_by_name<C>(
    networks: Seq<NetworkState<C>>,
    name: Seq<char>,
    i: int,
)
    requires
        names_differ(networks),
        0 <= i < networks.len(),
    ensures
        network_map(networks).contains_key(networks[i]@.config.network_name),
        network_map(networks)[networks[i]@.config.network_name] == networks[i]@,
        (forall|j: int|
            0 <= j < networks.len() ==> (#[trigger] networks[j])@.config.network_name != name)
            ==> !network_map(networks).contains_key(name),
{
    lemma_network_map_at(networks, i);
    if network_map(networks).contains_key(name) {
        let j = choose|j: int| stands_at(networks, name, j);
        assert(stands_at(networks, name, j));
        assert(networks[j]@.config.network_name == name);
    }
}

} // verus!
