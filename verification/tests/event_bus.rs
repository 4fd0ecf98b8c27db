use casper_node_proxy::events::{
    api_version_frame, event_frame, sse_api_version_event, sse_event, EventsSession, Outgoing,
    SessionAction, SessionEvent,
};
use casper_node_proxy::handlers::Inbound;
use casper_node_proxy::metrics::AppMetrics;
use casper_node_proxy::sse::{
    check_event, deliver, deliver_event, listener_step, redis_key, redis_url, Delivery, Listener,
    ListenerEvent, ListenerStep, StoreLink, StoreOutcome, StorePlan, RETRY_DELAY_SECS,
};
use casper_node_proxy::state::{EventBus, EventEnvelope};
use casper_types::account::AccountHash;
use casper_types::bytesrepr::{Bytes, ToBytes};
use casper_types::{
    Digest, InitiatorAddr, PricingMode, ProtocolVersion, RuntimeArgs, TimeDiff, Timestamp,
    Transaction, TransactionArgs, TransactionEntryPoint, TransactionInvocationTarget,
    TransactionRuntimeParams, TransactionScheduling, TransactionTarget, TransactionV1,
    TransactionV1Hash, TransactionV1Payload,
};
use serde_json::Value;
use std::collections::{BTreeMap, BTreeSet};
use veles_casper_rust_sdk::sse::event::SseEvent;

fn value(n: u64) -> Value {
    let mut map = serde_json::Map::new();
    map.insert("value".to_string(), Value::from(n));
    Value::Object(map)
}

fn ids(events: &[EventEnvelope]) -> Vec<u64> {
    events.iter().map(|event| event.id).collect()
}

fn metrics() -> AppMetrics {
    AppMetrics::new()
}

#[test]
fn event_bus_assigns_incrementing_ids() {
    let mut bus = EventBus::new(8, 16);
    let first = bus.push(value(1));
    let second = bus.push(value(2));
    assert_eq!(first.id, 1);
    assert_eq!(second.id, 2);
}

#[test]
fn event_bus_enforces_backlog_limit() {
    let mut bus = EventBus::new(3, 16);
    for i in 0..5 {
        let _ = bus.push(value(i));
    }
    let snapshot = bus.snapshot_from(1);
    let ids: Vec<u64> = snapshot.iter().map(|event| event.id).collect();
    assert_eq!(ids, vec![3, 4, 5]);
}

#[test]
fn event_bus_snapshot_is_inclusive() {
    let mut bus = EventBus::new(4, 16);
    for i in 0..4 {
        let _ = bus.push(value(i));
    }
    let snapshot = bus.snapshot_from(3);
    let ids: Vec<u64> = snapshot.iter().map(|event| event.id).collect();
    assert_eq!(ids, vec![3, 4]);
}

#[test]
fn backlog_keeps_the_data_of_the_latest_events() {
    let mut bus = EventBus::new(2, 16);
    for i in 0..4 {
        let event = bus.push(value(i));
        assert_eq!(event.data, value(i));
    }
    let snapshot = bus.snapshot_from(0);
    assert_eq!(ids(&snapshot), vec![3, 4]);
    assert_eq!(snapshot[0].data, value(2));
    assert_eq!(snapshot[1].data, value(3));
    assert_eq!(bus.last_id(), 4);
    assert!(bus.snapshot_from(5).is_empty());
}

#[test]
fn limits_of_zero_count_as_one() {
    let mut bus = EventBus::new(0, 0);
    assert_eq!(bus.broadcast_capacity(), 1);
    bus.push(value(1));
    bus.push(value(2));
    assert_eq!(ids(&bus.snapshot_from(0)), vec![2]);
}

#[test]
fn first_api_version_is_remembered() {
    let mut bus = EventBus::new(4, 4);
    assert!(bus.api_version().is_none());
    assert!(bus.remember_api_version(value(1)));
    assert!(!bus.remember_api_version(value(2)));
    assert_eq!(bus.api_version(), Some(value(1)));
    assert!(bus.snapshot_from(0).is_empty());
}

fn sent_event(action: SessionAction) -> Option<u64> {
    match action {
        SessionAction::Send(Outgoing::Event(event)) => Some(event.id),
        _ => None,
    }
}

#[test]
fn replay_and_live_events_leave_no_gap() {
    let mut metrics = metrics();
    let mut bus = EventBus::new(8, 16);
    for i in 0..3 {
        bus.push(value(i));
    }
    let mut session = EventsSession::open(&mut metrics, "local", Some(2));
    let mut live = Vec::new();
    for i in 3..5 {
        live.push(bus.push(value(i)));
    }
    let greeting = session.proceed(&bus, SessionEvent::ApiVersion(value(9)));
    assert!(matches!(greeting, SessionAction::Send(Outgoing::ApiVersion(v)) if v == value(9)));
    let mut seen = Vec::new();
    while let Some(id) = sent_event(session.proceed(&bus, SessionEvent::Sent(true))) {
        seen.push(id);
    }
    for i in 5..7 {
        live.push(bus.push(value(i)));
    }
    for event in live {
        if let Some(id) = sent_event(session.proceed(&bus, SessionEvent::Published(event))) {
            seen.push(id);
            let next = session.proceed(&bus, SessionEvent::Sent(true));
            assert!(matches!(next, SessionAction::Listen));
        }
    }
    assert_eq!(seen, vec![2, 3, 4, 5, 6, 7]);
    session.close(&mut metrics);
}

#[test]
fn backlog_may_be_taken_when_the_stream_is_opened() {
    let mut metrics = metrics();
    let mut bus = EventBus::new(8, 16);
    for i in 0..3 {
        bus.push(value(i));
    }
    let mut session = EventsSession::open(&mut metrics, "local", Some(3));
    session.load_backlog(&bus);
    bus.push(value(3));
    session.load_backlog(&bus);
    session.proceed(&bus, SessionEvent::ApiVersion(value(9)));
    assert_eq!(sent_event(session.proceed(&bus, SessionEvent::Sent(true))), Some(3));
    assert_eq!(sent_event(session.proceed(&bus, SessionEvent::Sent(true))), None);
    session.close(&mut metrics);
}

#[test]
fn without_replay_only_live_events_are_sent() {
    let mut metrics = metrics();
    let mut bus = EventBus::new(8, 16);
    bus.push(value(0));
    let mut session = EventsSession::open(&mut metrics, "local", None);
    session.proceed(&bus, SessionEvent::ApiVersion(value(9)));
    let next = session.proceed(&bus, SessionEvent::Sent(true));
    assert!(matches!(next, SessionAction::Listen));
    let second = bus.push(value(1));
    let again = second.duplicate();
    assert_eq!(sent_event(session.proceed(&bus, SessionEvent::Published(second))), Some(2));
    session.proceed(&bus, SessionEvent::Sent(true));
    assert_eq!(sent_event(session.proceed(&bus, SessionEvent::Published(again))), None);
    session.close(&mut metrics);
}

#[test]
fn streams_end() {
    let mut metrics = metrics();
    let bus = EventBus::new(8, 16);
    for last in 0..5 {
        let mut session = EventsSession::open(&mut metrics, "local", None);
        session.proceed(&bus, SessionEvent::ApiVersion(value(9)));
        if last == 0 {
            let next = session.proceed(&bus, SessionEvent::Sent(false));
            assert!(matches!(next, SessionAction::Stop));
            session.close(&mut metrics);
            continue;
        }
        session.proceed(&bus, SessionEvent::Sent(true));
        let next = session.proceed(&bus, SessionEvent::Lagged);
        assert!(matches!(next, SessionAction::Listen));
        let next = session.proceed(&bus, SessionEvent::Inbound(Inbound::Other));
        assert!(matches!(next, SessionAction::Listen));
        let next = session.proceed(&bus, SessionEvent::Inbound(Inbound::Binary(vec![1])));
        assert!(matches!(next, SessionAction::Listen));
        let event = match last {
            1 => SessionEvent::Closed,
            2 => SessionEvent::Inbound(Inbound::Close),
            3 => SessionEvent::Inbound(Inbound::Failed),
            _ => SessionEvent::Inbound(Inbound::Ended),
        };
        assert!(matches!(session.proceed(&bus, event), SessionAction::Stop));
        session.close(&mut metrics);
    }
}

#[test]
fn event_connections_are_counted_while_open() {
    let mut metrics = metrics();
    let first = EventsSession::open(&mut metrics, "local", None);
    let second = EventsSession::open(&mut metrics, "local", None);
    assert!(metrics.render().contains("sse_connections{network=\"local\"} 2"));
    first.close(&mut metrics);
    assert!(metrics.render().contains("sse_connections{network=\"local\"} 1"));
    second.close(&mut metrics);
    assert!(metrics.render().contains("sse_connections{network=\"local\"} 0"));
}

#[test]
fn frames_carry_identifier_and_data() {
    let event = EventEnvelope { id: 42, data: value(7) };
    assert_eq!(event_frame(&event), "{\"id\":42,\"data\":{\"value\":7}}");
    assert_eq!(api_version_frame(&value(1)), "{\"id\":null,\"data\":{\"value\":1}}");
    let frame = sse_event(&event);
    assert_eq!(frame.id, "42");
    assert_eq!(frame.data, "{\"value\":7}");
    let frame = sse_api_version_event(&value(1));
    assert_eq!(frame.id, "");
    assert_eq!(frame.data, "{\"value\":1}");
}

#[test]
fn largest_identifier_is_written_in_full() {
    let event = EventEnvelope { id: u64::MAX, data: Value::Null };
    assert_eq!(event_frame(&event), "{\"id\":18446744073709551615,\"data\":null}");
    assert_eq!(sse_event(&event).id, "18446744073709551615");
}

#[test]
fn listener_resumes_from_the_last_seen_identifier() {
    let mut listener = Listener::new(StoreLink::Connected, Some(10));
    assert_eq!(listener.resume_text(), Some("10".to_string()));
    assert_eq!(listener.received(Some(11)), Some(StorePlan { connect: false, id: 11 }));
    listener.stored(StoreOutcome::Failed);
    assert_eq!(listener.received(None), None);
    assert_eq!(listener.received(Some(12)), Some(StorePlan { connect: true, id: 12 }));
    listener.stored(StoreOutcome::Unreachable);
    assert_eq!(listener.store, StoreLink::Disconnected);
    assert_eq!(listener.received(Some(13)), Some(StorePlan { connect: true, id: 13 }));
    listener.stored(StoreOutcome::Stored);
    assert_eq!(listener.store, StoreLink::Connected);
    assert_eq!(listener.resume_text(), Some("13".to_string()));
}

#[test]
fn listener_without_a_store_does_not_resume_at_the_start() {
    let mut listener = Listener::new(StoreLink::Disconnected, Some(10));
    assert_eq!(listener.resume_text(), None);
    let mut disabled = Listener::new(StoreLink::Disabled, None);
    assert_eq!(disabled.received(Some(5)), None);
    assert_eq!(disabled.resume_text(), Some("5".to_string()));
    assert_eq!(listener.received(Some(5)), Some(StorePlan { connect: true, id: 5 }));
    assert_eq!(RETRY_DELAY_SECS, 3);
}

#[test]
fn listener_steps() {
    assert_eq!(listener_step(ListenerEvent::Started), ListenerStep::Connect);
    assert_eq!(listener_step(ListenerEvent::Refused), ListenerStep::Stop);
    assert_eq!(listener_step(ListenerEvent::Connected), ListenerStep::Read);
    assert_eq!(listener_step(ListenerEvent::Received), ListenerStep::Read);
    for event in [ListenerEvent::Unreachable, ListenerEvent::Failed, ListenerEvent::Ended] {
        assert_eq!(listener_step(event), ListenerStep::Wait { secs: 3 });
    }
    assert_eq!(listener_step(ListenerEvent::Waited), ListenerStep::Connect);
}

#[test]
fn store_settings() {
    assert_eq!(redis_key("devnet"), "sse_last_id:devnet");
    assert_eq!(redis_url(&Vec::new()), "redis://127.0.0.1/");
    let vars = vec![("REDIS_URL".to_string(), "redis://elsewhere/".to_string())];
    assert_eq!(redis_url(&vars), "redis://elsewhere/");
}

#[test]
fn upstream_api_version_is_remembered_and_not_published() {
    let mut bus = EventBus::new(4, 4);
    let version = SseEvent::ApiVersion(ProtocolVersion::from_parts(1, 5, 0));
    assert!(matches!(deliver_event(&mut bus, &version), Delivery::Remembered));
    assert!(matches!(deliver_event(&mut bus, &version), Delivery::Known));
    assert!(bus.snapshot_from(0).is_empty());
    let stored = bus.api_version().map(|value| value.to_string());
    assert_eq!(stored, Some("{\"ApiVersion\":\"1.5.0\"}".to_string()));
    match deliver_event(&mut bus, &SseEvent::Shutdown) {
        Delivery::Published(event) => {
            assert_eq!(event.id, 1);
            assert_eq!(event.data, Value::from("Shutdown"));
        }
        _ => panic!("shutdown should be published"),
    }
}

#[test]
fn event_that_is_no_json_is_dropped() {
    let mut bus = EventBus::new(4, 4);
    assert!(matches!(deliver(&mut bus, false, None), Delivery::Dropped));
    assert!(matches!(deliver(&mut bus, true, None), Delivery::Dropped));
    assert_eq!(bus.last_id(), 0);
}

#[test]
fn events_ws_receives_message() {
    let mut metrics = metrics();
    let mut bus = EventBus::new(16, 256);
    let mut session = EventsSession::open(&mut metrics, "local", None);
    deliver_event(&mut bus, &SseEvent::ApiVersion(ProtocolVersion::from_parts(2, 0, 0)));

    let api_version = bus.api_version().expect("api version should be known");
    let text = match session.proceed(&bus, SessionEvent::ApiVersion(api_version)) {
        SessionAction::Send(Outgoing::ApiVersion(data)) => api_version_frame(&data),
        other => panic!("unexpected action: {other:?}"),
    };
    let value: Value = serde_json::from_str(&text).expect("event payload should be JSON");
    assert_eq!(value.get("id"), Some(&Value::Null));
    let data = value.get("data").cloned().expect("event payload should have data");
    let event: SseEvent = serde_json::from_value(data).expect("event payload should decode");
    assert!(matches!(event, SseEvent::ApiVersion(_)));
    session.proceed(&bus, SessionEvent::Sent(true));

    let event = match deliver_event(&mut bus, &SseEvent::Shutdown) {
        Delivery::Published(event) => event,
        _ => panic!("event should be published"),
    };
    let text = match session.proceed(&bus, SessionEvent::Published(event)) {
        SessionAction::Send(Outgoing::Event(event)) => event_frame(&event),
        other => panic!("unexpected action: {other:?}"),
    };
    let value: Value = serde_json::from_str(&text).expect("event payload should be JSON");
    assert!(
        matches!(value.get("id"), Some(Value::Number(_))),
        "expected SSE event with non-null id after ApiVersion"
    );
    session.close(&mut metrics);
}

#[test]
fn events_sse_listener_receives_event() {
    let mut metrics = metrics();
    let mut bus = EventBus::new(16, 256);
    let mut session = EventsSession::open(&mut metrics, "local", None);
    session.load_backlog(&bus);
    deliver_event(&mut bus, &SseEvent::ApiVersion(ProtocolVersion::from_parts(2, 0, 0)));

    let api_version = bus.api_version().expect("api version should be known");
    let first = match session.proceed(&bus, SessionEvent::ApiVersion(api_version)) {
        SessionAction::Send(Outgoing::ApiVersion(data)) => sse_api_version_event(&data),
        other => panic!("unexpected action: {other:?}"),
    };
    assert!(first.id.is_empty(), "expected first SSE event to have null id: {first:?}");
    let data: SseEvent = serde_json::from_str(&first.data).expect("event should decode");
    assert!(
        matches!(data, SseEvent::ApiVersion(_)),
        "expected first SSE event to be ApiVersion"
    );
    session.proceed(&bus, SessionEvent::Sent(true));

    let event = match deliver_event(&mut bus, &SseEvent::Shutdown) {
        Delivery::Published(event) => event,
        _ => panic!("event should be published"),
    };
    let second = match session.proceed(&bus, SessionEvent::Published(event)) {
        SessionAction::Send(Outgoing::Event(event)) => sse_event(&event),
        other => panic!("unexpected action: {other:?}"),
    };
    assert_eq!(second.id, "1", "expected SSE event with non-null id after ApiVersion");
    session.close(&mut metrics);
}

fn accepted(target: Vec<u8>) -> SseEvent {
    let args = TransactionArgs::Named(RuntimeArgs::new());
    let fields: BTreeMap<u16, Bytes> = [
        (0, args.to_bytes().expect("args")),
        (1, target),
        (2, TransactionEntryPoint::Call.to_bytes().expect("entry point")),
        (3, TransactionScheduling::Standard.to_bytes().expect("scheduling")),
    ]
    .into_iter()
    .map(|(key, bytes)| (key, Bytes::from(bytes)))
    .collect();
    let payload = TransactionV1Payload::new(
        "casper-test".to_string(),
        Timestamp::from(1234u64),
        TimeDiff::from_millis(1000),
        PricingMode::Fixed { gas_price_tolerance: 1, additional_computation_factor: 0 },
        InitiatorAddr::AccountHash(AccountHash::new([5; 32])),
        fields,
    );
    let hash = TransactionV1Hash::new(Digest::from([9u8; 32]));
    let transaction = TransactionV1::new(hash, payload, BTreeSet::new());
    SseEvent::TransactionAccepted(Transaction::V1(transaction))
}

fn runtime() -> TransactionRuntimeParams {
    TransactionRuntimeParams::VmCasperV2 { transferred_value: 7, seed: None }
}

fn stored() -> Vec<u8> {
    let id = TransactionInvocationTarget::ByPackageHash {
        addr: [4; 32],
        version: Some(2),
        protocol_version_major: Some(2),
    };
    TransactionTarget::Stored { id, runtime: runtime() }.to_bytes().expect("target")
}

fn session() -> Vec<u8> {
    TransactionTarget::Session {
        is_install_upgrade: true,
        module_bytes: Bytes::from(vec![1u8, 2, 3]),
        runtime: runtime(),
    }
    .to_bytes()
    .expect("target")
}

/// Where the bytes of the fields of a table start, and the offset of a field.
fn field_start(bytes: &[u8], table: usize, field: usize) -> usize {
    let at = table + 4 + 6 * field + 2;
    let offset = u32::from_le_bytes([bytes[at], bytes[at + 1], bytes[at + 2], bytes[at + 3]]);
    table + 4 + 6 * bytes[table] as usize + 4 + offset as usize
}

fn with_offset(bytes: &[u8], table: usize, field: usize, offset: u32) -> Vec<u8> {
    let mut bytes = bytes.to_vec();
    let at = table + 4 + 6 * field + 2;
    bytes[at..at + 4].copy_from_slice(&offset.to_le_bytes());
    bytes
}

#[test]
fn accepted_transactions_are_published() {
    let mut bus = EventBus::new(4, 4);
    let native = TransactionTarget::Native.to_bytes().expect("target");
    for target in [native, stored(), session()] {
        let event = accepted(target);
        assert!(check_event(&event));
        match deliver_event(&mut bus, &event) {
            Delivery::Published(published) => {
                assert!(published.data.get("TransactionAccepted").is_some());
            }
            _ => panic!("a transaction should be published"),
        }
    }
}

#[test]
fn targets_that_cannot_be_read_are_dropped() {
    let mut bus = EventBus::new(4, 4);
    let (stored, session) = (stored(), session());
    let mut bare = 3u32.to_le_bytes().to_vec();
    for (index, offset) in [(0u16, 0u32), (1, 1), (2, 0)] {
        bare.extend(index.to_le_bytes());
        bare.extend(offset.to_le_bytes());
    }
    bare.extend(1u32.to_le_bytes());
    bare.push(0);
    let entity = field_start(&stored, 0, 1);
    let falling = [
        bare,
        with_offset(&stored, 0, 2, 0),
        with_offset(&stored, entity, 2, 0),
        with_offset(&stored, entity, 3, 1),
        with_offset(&stored, field_start(&stored, 0, 2), 2, 0),
        with_offset(&session, 0, 3, 0),
        with_offset(&session, field_start(&session, 0, 2), 2, 0),
    ];
    for target in falling {
        let event = accepted(target);
        assert!(!check_event(&event));
        assert!(matches!(deliver_event(&mut bus, &event), Delivery::Dropped));
    }
    for target in [vec![], vec![7], vec![9, 0, 0, 0]] {
        let event = accepted(target);
        assert!(check_event(&event));
        assert!(matches!(deliver_event(&mut bus, &event), Delivery::Dropped));
    }
    assert!(bus.snapshot_from(0).is_empty());
}
