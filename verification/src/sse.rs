//! Listener of a network's upstream events: what is kept of each event, and
//! where a new connection resumes.

use serde_json::Value;
use veles_casper_rust_sdk::sse::event::SseEvent;
use vstd::prelude::*;
use vstd::string::*;

use crate::calltable;
use crate::calltable::{check_target, TARGET_KEY};
use crate::config;
use crate::config::env_var;
use crate::json;
use crate::json::Json;
use crate::state::{BusView, EventBus, EventEnvelope};
use crate::text;
use crate::text::{decimal_text, join};

verus! {

/// How long to wait before connecting again.
pub const RETRY_DELAY_SECS: u64 = 3;

/// The address of the store for resume state.
pub fn redis_url(vars: &Vec<(String, String)>) -> (r: String)
    ensures
        r@ == config::text_setting(vars@, "REDIS_URL"@, "redis://127.0.0.1/"@),
{
    match env_var(vars, "REDIS_URL") {
        Some(url) => url.clone(),
        None => "redis://127.0.0.1/".to_owned(),
    }
}

/// The key under which the last seen identifier of a network is stored.
pub fn redis_key(network_name: &str) -> (r: String)
    ensures
        r@ == "sse_last_id:"@ + network_name@,
{
    join("sse_last_id:", network_name)
}

/// Different networks are stored under different keys.
pub proof fn law_keys_differ_by_network(a: Seq<char>, b: Seq<char>)
    requires
        "sse_last_id:"@ + a == "sse_last_id:"@ + b,
    ensures
        a == b,
{
    let n = "sse_last_id:"@.len() as int;
    assert(("sse_last_id:"@ + a).skip(n) =~= a);
    assert(("sse_last_id:"@ + b).skip(n) =~= b);
}

/// The link to the store for resume state.
#[derive(Clone, Copy, Debug, PartialEq, Eq, Structural)]
pub enum StoreLink {
    /// There is no store.
    Disabled,
    /// The store is not connected.
    Disconnected,
    /// The store is connected.
    Connected,
}

/// What is to be stored.
#[derive(Clone, Copy, Debug, PartialEq, Eq, Structural)]
pub struct StorePlan {
    /// Whether the store is to be connected first.
    pub connect: bool,
    /// The identifier to store.
    pub id: u64,
}

/// What became of a [`StorePlan`].
#[derive(Clone, Copy, Debug, PartialEq, Eq, Structural)]
pub enum StoreOutcome {
    /// The store could not be connected.
    Unreachable,
    /// Storing failed.
    Failed,
    /// The identifier was stored.
    Stored,
}

/// What a listener keeps between events and connections.
#[derive(Clone, Copy, Debug, PartialEq, Eq, Structural)]
pub struct Listener {
    /// The last seen identifier.
    pub start_from: Option<u64>,
    /// The link to the store.
    pub store: StoreLink,
}

impl Listener {
    /// A listener at the start. It resumes from what the store holds; where the
    /// store cannot be reached, it does not resume.
    pub fn new(store: StoreLink, stored: Option<u64>) -> (r: Self)
        ensures
            r.store == store,
            r.start_from == if store is Connected {
                stored
            } else {
                None
            },
            r.start_from == resumed(store, stored),
    {
        match store {
            StoreLink::Connected => Listener { start_from: stored, store },
            _ => Listener { start_from: None, store },
        }
    }

    /// The text of the identifier from which a connection resumes.
    pub fn resume_text(&self) -> (r: Option<String>)
        ensures
            match r {
                Some(text) => self.start_from is Some && text@ == text::decimal(
                    self.start_from->0 as nat,
                ),
                None => self.start_from is None,
            },
    {
        match self.start_from {
            Some(id) => Some(decimal_text(id)),
            None => None,
        }
    }

    /// Takes note of an event's identifier and says what is to be stored.
    pub fn received(&mut self, id: Option<u64>) -> (r: Option<StorePlan>)
        ensures
            *final(self) == (Listener {
                start_from: seen(old(self).start_from, id),
                store: old(self).store,
            }),
            r == store_plan(old(self).store, id),
    {
        match id {
            Some(id) => {
                self.start_from = Some(id);
                match self.store {
                    StoreLink::Disabled => None,
                    StoreLink::Disconnected => Some(StorePlan { connect: true, id }),
                    StoreLink::Connected => Some(StorePlan { connect: false, id }),
                }
            },
            None => None,
        }
    }

    /// Takes note of what became of a plan. After a failure the store is to be
    /// connected anew.
    pub fn stored(&mut self, outcome: StoreOutcome)
        requires
            !(old(self).store is Disabled),
        ensures
            *final(self) == (Listener {
                start_from: old(self).start_from,
                store: if outcome is Stored {
                    StoreLink::Connected
                } else {
                    StoreLink::Disconnected
                },
            }),
            final(self).store == linked(outcome),
    {
        self.store = match outcome {
            StoreOutcome::Stored => StoreLink::Connected,
            StoreOutcome::Failed => StoreLink::Disconnected,
            StoreOutcome::Unreachable => StoreLink::Disconnected,
        };
    }
}

/// What happened to a listener.
#[derive(Clone, Copy, Debug, PartialEq, Eq, Structural)]
pub enum ListenerEvent {
    /// It was started.
    Started,
    /// Its settings were refused.
    Refused,
    /// It could not connect.
    Unreachable,
    /// It is connected.
    Connected,
    /// An event came and was delivered.
    Received,
    /// Reading failed.
    Failed,
    /// The upstream closed the connection.
    Ended,
    /// It has waited.
    Waited,
}

/// What a listener does next.
#[derive(Clone, Copy, Debug, PartialEq, Eq, Structural)]
pub enum ListenerStep {
    /// Connect, and resume from the last seen identifier.
    Connect,
    /// Read the next event.
    Read,
    /// Wait before connecting again.
    Wait { secs: u64 },
    /// Give up.
    Stop,
}

/// What a listener does after an event. Only refused settings make it give up;
/// a connection that cannot be had or kept is tried again after a while.
pub open spec fn next_step(event: ListenerEvent) -> ListenerStep {
    match event {
        ListenerEvent::Started => ListenerStep::Connect,
        ListenerEvent::Waited => ListenerStep::Connect,
        ListenerEvent::Connected => ListenerStep::Read,
        ListenerEvent::Received => ListenerStep::Read,
        ListenerEvent::Refused => ListenerStep::Stop,
        ListenerEvent::Unreachable => ListenerStep::Wait { secs: RETRY_DELAY_SECS },
        ListenerEvent::Failed => ListenerStep::Wait { secs: RETRY_DELAY_SECS },
        ListenerEvent::Ended => ListenerStep::Wait { secs: RETRY_DELAY_SECS },
    }
}

/// Says what a listener does next.
pub fn listener_step(event: ListenerEvent) -> (r: ListenerStep)
    ensures
        r == next_step(event),
{
    match event {
        ListenerEvent::Started => ListenerStep::Connect,
        ListenerEvent::Waited => ListenerStep::Connect,
        ListenerEvent::Connected => ListenerStep::Read,
        ListenerEvent::Received => ListenerStep::Read,
        ListenerEvent::Refused => ListenerStep::Stop,
        ListenerEvent::Unreachable => ListenerStep::Wait { secs: RETRY_DELAY_SECS },
        ListenerEvent::Failed => ListenerStep::Wait { secs: RETRY_DELAY_SECS },
        ListenerEvent::Ended => ListenerStep::Wait { secs: RETRY_DELAY_SECS },
    }
}

/// The last seen identifier after an event.
pub open spec fn seen(start_from: Option<u64>, id: Option<u64>) -> Option<u64> {
    match id {
        Some(id) => Some(id),
        None => start_from,
    }
}

/// What is to be stored after an event.
pub open spec fn store_plan(store: StoreLink, id: Option<u64>) -> Option<StorePlan> {
    match id {
        Some(id) => if store is Disabled {
            None
        } else {
            Some(StorePlan { connect: store is Disconnected, id })
        },
        None => None,
    }
}

/// The last seen identifier after a series of events.
pub open spec fn seen_after(start_from: Option<u64>, events: Seq<Option<u64>>) -> Option<u64>
    decreases events.len(),
{
    if events.len() == 0 {
        start_from
    } else {
        seen(seen_after(start_from, events.drop_last()), events.last())
    }
}

/// A new connection resumes from the last event that had an identifier,
/// whatever came after it and however often the connection was lost.
pub proof fn law_resumes_from_the_last_seen(
    start_from: Option<u64>,
    events: Seq<Option<u64>>,
    last: int,
)
    requires
        0 <= last < events.len(),
        events[last] is Some,
        forall|i: int| last < i < events.len() ==> #[trigger] events[i] is None,
    ensures
        seen_after(start_from, events) == events[last],
    decreases events.len(),
{
    if last < events.len() - 1 {
        law_resumes_from_the_last_seen(start_from, events.drop_last(), last);
        assert(events.last() == events[events.len() - 1]);
    }
}

/// What is stored after an event is the identifier from which a connection
/// resumes.
pub proof fn law_stored_is_resumed(store: StoreLink, start_from: Option<u64>, id: Option<u64>)
    ensures
        store_plan(store, id) matches Some(plan) ==> seen(start_from, id) == Some(plan.id),
{
}

/// An event of the upstream.
#[verifier::external_type_specification]
#[verifier::external_body]
pub struct ExSseEvent(veles_casper_rust_sdk::sse::event::SseEvent);

/// What the proxy reads of an event.
#[derive(Debug)]
pub struct SseReading {
    /// Whether it is an api version.
    pub is_api_version: bool,
    /// The event as JSON, where it can be turned into that.
    pub value: Option<Value>,
}

/// Whether a value is that of an api version: an object with the one key that
/// says so.
pub open spec fn tagged_api_version(tree: Json) -> bool {
    tree matches Json::Object(members) && members.len() == 1 && members[0].0 == "ApiVersion"@
}

/// What `serde_json::to_value` makes of an event: what the value holds, where
/// the event can be turned into one.
pub uninterp spec fn event_json(event: SseEvent) -> Option<Json>;

/// The bytes under a key in the payload of the transaction that an event says
/// was accepted, if it carries such a transaction and it has that key.
pub uninterp spec fn accepted_field(event: SseEvent, key: u16) -> Option<Seq<u8>>;

/// `TransactionV1Payload::fields` of the transaction that a `TransactionAccepted`
/// event of `veles_casper_rust_sdk::sse::event::SseEvent` carries, and the bytes
/// that stand there under a key, named. A deploy has none.
#[verifier::external_body]
pub(crate) fn read_accepted_field(event: &SseEvent, key: u16) -> (r: Option<Vec<u8>>)
    ensures
        r.deep_view() == accepted_field(*event, key),
{
    match event {
        SseEvent::TransactionAccepted(casper_types::Transaction::V1(transaction)) => {
            transaction.payload().fields().get(&key).map(|field| field.to_vec())
        },
        _ => None,
    }
}

/// Whether the offsets in the target of an accepted transaction never fall.
pub open spec fn is_readable(event: SseEvent) -> bool {
    match accepted_field(event, TARGET_KEY) {
        None => true,
        Some(target) => calltable::target_ascends(target),
    }
}

/// Tests the target of an accepted transaction.
pub fn check_event(event: &SseEvent) -> (r: bool)
    ensures
        r == is_readable(*event),
{
    match read_accepted_field(event, TARGET_KEY) {
        None => true,
        Some(target) => {
            assert(target.deep_view() =~= target@);
            check_target(target.as_slice())
        },
    }
}

/// The variant of `veles_casper_rust_sdk::sse::event::SseEvent`, and what
/// `serde_json::to_value` makes of it, which is named. An event is turned into
/// an object under the variant's name, or into the name alone, so that an api
/// version can be told by its JSON. The target of a transaction is decoded on
/// the way, and its decoder subtracts offsets without a check, so those that
/// fall are left out.
#[verifier::external_body]
pub(crate) fn read_event(event: &SseEvent) -> (r: SseReading)
    requires
        is_readable(*event),
    ensures
        crate::state::optional_tree(r.value) == event_json(*event),
        r.value matches Some(value) ==> (r.is_api_version <==> tagged_api_version(
            json::json_tree(value),
        )),
{
    SseReading {
        is_api_version: matches!(event, SseEvent::ApiVersion(_)),
        value: serde_json::to_value(event).ok(),
    }
}

/// What became of an event.
pub enum Delivery {
    /// It was the first api version, which is kept for new clients.
    Remembered,
    /// It was an api version, and one was known.
    Known,
    /// It was published.
    Published(EventEnvelope),
    /// It could not be turned into JSON.
    Dropped,
}

/// The bus after an event.
pub open spec fn delivered(bus: BusView, is_api_version: bool, value: Option<Json>) -> BusView {
    match value {
        None => bus,
        Some(data) => if is_api_version {
            BusView {
                api_version: if bus.api_version is None {
                    Some(data)
                } else {
                    bus.api_version
                },
                ..bus
            }
        } else {
            bus.pushed(data)
        },
    }
}

/// Delivers an event to the bus, as JSON where it can be turned into that. An
/// api version is remembered and not published.
pub fn deliver(events: &mut EventBus, is_api_version: bool, value: Option<Value>) -> (r: Delivery)
    requires
        old(events)@.wf(),
        old(events)@.last_id < u64::MAX,
    ensures
        final(events)@.wf(),
        final(events)@ == delivered(
            old(events)@,
            is_api_version,
            crate::state::optional_tree(value),
        ),
        match value {
            None => r is Dropped,
            Some(data) => if is_api_version {
                if old(events)@.api_version is None {
                    r is Remembered
                } else {
                    r is Known
                }
            } else {
                r matches Delivery::Published(event) && event@ == old(events)@.next_event(
                    json::json_tree(data),
                )
            },
        },
        r matches Delivery::Published(event) ==> event@ == final(events)@.backlog.last() && event.id
            == final(events)@.last_id && event.id == old(events)@.last_id + 1,
        !(r is Published) ==> final(events)@.backlog == old(events)@.backlog,
        !(r is Published) ==> final(events)@.last_id == old(events)@.last_id,
{
    match value {
        None => Delivery::Dropped,
        Some(data) => {
            if is_api_version {
                if events.remember_api_version(data) {
                    Delivery::Remembered
                } else {
                    Delivery::Known
                }
            } else {
                Delivery::Published(events.push(data))
            }
        },
    }
}

/// The JSON of an event, where it can be turned into that: its offsets do not
/// fall, and nothing else keeps it from being written.
pub open spec fn json_of(event: SseEvent) -> Option<Json> {
    if is_readable(event) {
        event_json(event)
    } else {
        None
    }
}

/// Delivers an event of the upstream to the bus: an api version is remembered,
/// any other event is published, and one that cannot be turned into JSON is
/// dropped.
pub fn deliver_event(events: &mut EventBus, event: &SseEvent) -> (r: Delivery)
    requires
        old(events)@.wf(),
        old(events)@.last_id < u64::MAX,
    ensures
        final(events)@.wf(),
        match json_of(*event) {
            None => r is Dropped && final(events)@ == old(events)@,
            Some(data) => final(events)@ == delivered(
                old(events)@,
                tagged_api_version(data),
                Some(data),
            ) && if tagged_api_version(data) {
                if old(events)@.api_version is None {
                    r is Remembered
                } else {
                    r is Known
                }
            } else {
                r matches Delivery::Published(published) && published@ == old(
                    events,
                )@.next_event(data)
            },
        },
{
    if !check_event(event) {
        return Delivery::Dropped;
    }
    let reading = read_event(event);
    deliver(events, reading.is_api_version, reading.value)
}

/// The api version that clients are greeted with is the first one that came.
pub proof fn law_first_api_version_stays(bus: BusView, first: Json, second: Json)
    requires
        bus.api_version is None,
    ensures
        delivered(delivered(bus, true, Some(first)), true, Some(second)).api_version == Some(
            first,
        ),
        delivered(bus, true, Some(first)).backlog == bus.backlog,
        delivered(bus, true, Some(first)).last_id == bus.last_id,
{
}

/// An event that has JSON and is no api version takes the next identifier and
/// becomes the last event of the backlog, whatever it holds, so that two
/// deliveries in a row never publish one identifier twice. The api version and
/// the limits stay.
pub proof fn law_delivered_events_are_kept(bus: BusView, first: Json, second: Json)
    requires
        bus.wf(),
        bus.last_id + 2 <= u64::MAX,
    ensures
        ({
            let once = delivered(bus, false, Some(first));
            let twice = delivered(once, false, Some(second));
            let gone = bus.backlog.len() + 1 - once.backlog.len();
            &&& once.wf()
            &&& once.last_id == bus.last_id + 1
            &&& once.backlog.len() > 0
            &&& once.backlog.last() == bus.next_event(first)
            &&& once.backlog.last().id == bus.last_id + 1
            &&& once.backlog.last().data == first
            &&& 0 <= gone <= 1
            &&& gone == 1 <==> bus.backlog.len() == bus.backlog_limit
            &&& once.backlog.drop_last() == bus.backlog.skip(gone as int)
            &&& once.api_version == bus.api_version
            &&& once.backlog_limit == bus.backlog_limit
            &&& once.broadcast_capacity == bus.broadcast_capacity
            &&& twice.backlog.last().id == once.backlog.last().id + 1
            &&& twice.backlog.last().data == second
        }),
{
    crate::state::law_added_events_are_kept(bus, first);
    crate::state::law_added_events_are_kept(bus.pushed(first), second);
}

/// An api version is never published: it changes nothing but the api version
/// that clients are greeted with, and that only where none was known. What has
/// no JSON changes nothing at all.
pub proof fn law_api_versions_are_not_published(bus: BusView, data: Json, is_api_version: bool)
    ensures
        ({
            let after = delivered(bus, true, Some(data));
            &&& after.backlog == bus.backlog
            &&& after.last_id == bus.last_id
            &&& after.backlog_limit == bus.backlog_limit
            &&& after.broadcast_capacity == bus.broadcast_capacity
            &&& bus.api_version is None ==> after.api_version == Some(data)
            &&& bus.api_version is Some ==> after.api_version == bus.api_version
        }),
        delivered(bus, is_api_version, None) == bus,
{
}

/// Only an accepted transaction whose target has an offset that falls is kept
/// from being turned into JSON; every other event has the JSON that it is
/// written as.
pub proof fn law_only_falling_targets_are_dropped(event: SseEvent)
    ensures
        accepted_field(event, 1) is None ==> json_of(event) == event_json(event),
        accepted_field(event, 1) matches Some(target) ==> (if calltable::target_ascends(target) {
            json_of(event) == event_json(event)
        } else {
            json_of(event) is None
        }),
{
}

/// A listener gives up only where its settings are refused. It reads while it
/// is connected, waits three seconds where a connection cannot be had or kept,
/// and connects after that.
pub proof fn law_listeners_keep_trying(event: ListenerEvent)
    ensures
        next_step(event) is Stop <==> event is Refused,
        next_step(event) == ListenerStep::Read <==> event is Connected || event is Received,
        next_step(event) == (ListenerStep::Wait { secs: 3 }) <==> event is Unreachable || event
            is Failed || event is Ended,
        next_step(event) is Connect <==> event is Started || event is Waited,
{
}

/// Every identifier that comes is the one to resume from and is stored, unless
/// there is no store; the store is connected first exactly where it is not
/// connected. An event without an identifier changes nothing.
pub proof fn law_every_identifier_is_stored(store: StoreLink, start_from: Option<u64>, id: u64)
    ensures
        seen(start_from, Some(id)) == Some(id),
        seen(start_from, None) == start_from,
        store is Disabled ==> store_plan(store, Some(id)) is None,
        store is Disconnected ==> store_plan(store, Some(id)) == Some(
            StorePlan { connect: true, id },
        ),
        store is Connected ==> store_plan(store, Some(id)) == Some(
            StorePlan { connect: false, id },
        ),
        store_plan(store, None) is None,
{
}

/// The identifier from which a listener resumes at the start.
pub open spec fn resumed(store: StoreLink, stored: Option<u64>) -> Option<u64> {
    match store {
        StoreLink::Connected => stored,
        _ => None,
    }
}

/// The link to the store after something was to be stored.
pub open spec fn linked(outcome: StoreOutcome) -> StoreLink {
    match outcome {
        StoreOutcome::Stored => StoreLink::Connected,
        _ => StoreLink::Disconnected,
    }
}

/// A listener that starts again resumes from the last identifier that was
/// stored, as long as the store can be reached. After a failure the store is
/// connected anew before the next identifier is stored, and after a success it is
/// not.
pub proof fn law_stored_identifiers_survive(
    store: StoreLink,
    stored: Option<u64>,
    outcome: StoreOutcome,
    id: u64,
)
    ensures
        resumed(StoreLink::Connected, stored) == stored,
        !(store is Connected) ==> resumed(store, stored) is None,
        outcome is Stored ==> store_plan(linked(outcome), Some(id)) == Some(
            StorePlan { connect: false, id },
        ),
        !(outcome is Stored) ==> store_plan(linked(outcome), Some(id)) == Some(
            StorePlan { connect: true, id },
        ),
{
}

} // verus!
