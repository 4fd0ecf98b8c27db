//! Streams of events to clients: what is sent, in which order, and when a
//! stream ends.

use serde_json::Value;
use std::collections::VecDeque;
use vstd::prelude::*;
use vstd::string::*;

use crate::handlers::{Inbound, InboundView};
use crate::json;
use crate::json::{copy_json, json_null, json_object, json_unsigned, render_json, Json};
use crate::metrics::{AppMetrics, GaugeGuard, GaugeKind};
use crate::state;
use crate::state::{BusView, EventBus, EventEnvelope, EventView};
use crate::text;
use crate::text::decimal_text;

verus! {

/// How far a stream of events to one client has come.
#[derive(Clone, Copy, Debug, PartialEq, Eq, Structural)]
pub enum Stage {
    /// The api version is not known yet.
    Greeting,
    /// The api version is being sent.
    Greeted,
    /// An event of the backlog is being sent.
    Replaying,
    /// Events are awaited.
    Live,
    /// A live event is being sent.
    Sending,
    /// The stream has ended.
    Ended,
}

/// A stream of events to one client.
#[derive(Debug)]
pub struct EventsSession {
    stage: Stage,
    last_sent_id: u64,
    start_from: Option<u64>,
    loaded: bool,
    backlog: VecDeque<EventEnvelope>,
    guard: GaugeGuard,
}

/// The view of [`EventsSession`].
#[verifier::ext_equal]
pub struct SessionView {
    pub stage: Stage,
    /// The identifier of the last event that was sent, 0 before the first.
    pub last_sent_id: u64,
    /// Where the client wants the replay to start, if it wants one.
    pub start_from: Option<u64>,
    /// Whether the events to replay were taken from the backlog.
    pub loaded: bool,
    /// The events that are still to be replayed.
    pub backlog: Seq<EventView>,
}

/// What happened to a stream.
pub enum SessionEvent {
    /// The api version is known.
    ApiVersion(Value),
    /// What was to be sent was sent, or not.
    Sent(bool),
    /// Something came in from the client.
    Inbound(Inbound),
    /// An event was published.
    Published(EventEnvelope),
    /// Events were missed.
    Lagged,
    /// No more events are published.
    Closed,
}

/// The view of [`SessionEvent`].
pub enum SessionEventView {
    ApiVersion(Json),
    Sent(bool),
    Inbound(InboundView),
    Published(EventView),
    Lagged,
    Closed,
}

impl View for SessionEvent {
    type V = SessionEventView;

    open spec fn view(&self) -> SessionEventView {
        match self {
            SessionEvent::ApiVersion(value) => SessionEventView::ApiVersion(
                json::json_tree(*value),
            ),
            SessionEvent::Sent(sent) => SessionEventView::Sent(*sent),
            SessionEvent::Inbound(inbound) => SessionEventView::Inbound(inbound@),
            SessionEvent::Published(event) => SessionEventView::Published(event@),
            SessionEvent::Lagged => SessionEventView::Lagged,
            SessionEvent::Closed => SessionEventView::Closed,
        }
    }
}

/// What is sent to a client.
#[derive(Debug)]
pub enum Outgoing {
    ApiVersion(Value),
    Event(EventEnvelope),
}

/// The view of [`Outgoing`].
pub enum OutgoingView {
    ApiVersion(Json),
    Event(EventView),
}

impl View for Outgoing {
    type V = OutgoingView;

    open spec fn view(&self) -> OutgoingView {
        match self {
            Outgoing::ApiVersion(value) => OutgoingView::ApiVersion(json::json_tree(*value)),
            Outgoing::Event(event) => OutgoingView::Event(event@),
        }
    }
}

/// What is to be done for a stream.
#[derive(Debug)]
pub enum SessionAction {
    /// Wait for the api version.
    AwaitApiVersion,
    /// Send this, and say whether it was sent.
    Send(Outgoing),
    /// Wait for what the client sends and for what is published.
    Listen,
    /// End the stream.
    Stop,
}

/// The view of [`SessionAction`].
pub enum SessionActionView {
    AwaitApiVersion,
    Send(OutgoingView),
    Listen,
    Stop,
}

impl View for SessionAction {
    type V = SessionActionView;

    open spec fn view(&self) -> SessionActionView {
        match self {
            SessionAction::AwaitApiVersion => SessionActionView::AwaitApiVersion,
            SessionAction::Send(outgoing) => SessionActionView::Send(outgoing@),
            SessionAction::Listen => SessionActionView::Listen,
            SessionAction::Stop => SessionActionView::Stop,
        }
    }
}

/// The events that are replayed to a client.
pub open spec fn replayed(bus: BusView, start_from: Option<u64>) -> Seq<EventView> {
    match start_from {
        Some(start) => bus.snapshot(start),
        None => Seq::empty(),
    }
}

impl SessionView {
    /// A stream that was just opened.
    pub open spec fn fresh(start_from: Option<u64>) -> SessionView {
        SessionView {
            stage: Stage::Greeting,
            last_sent_id: 0,
            start_from,
            loaded: false,
            backlog: Seq::empty(),
        }
    }

    /// The stream with the events to replay, taken from the bus unless they
    /// were taken before.
    pub open spec fn with_backlog(self, bus: BusView) -> SessionView {
        if self.loaded {
            self
        } else {
            SessionView { loaded: true, backlog: replayed(bus, self.start_from), ..self }
        }
    }

    /// The stream in another stage.
    pub open spec fn in_stage(self, stage: Stage) -> SessionView {
        SessionView { stage, ..self }
    }

    /// The stream as it goes on with the replay, or listens after it.
    pub open spec fn replaying(self) -> (SessionView, SessionActionView) {
        if self.backlog.len() > 0 {
            let event = self.backlog.first();
            (
                SessionView {
                    stage: Stage::Replaying,
                    last_sent_id: event.id,
                    backlog: self.backlog.drop_first(),
                    ..self
                },
                SessionActionView::Send(OutgoingView::Event(event)),
            )
        } else {
            (self.in_stage(Stage::Live), SessionActionView::Listen)
        }
    }

    /// Whether an event is one that the stage waits for.
    pub open spec fn awaits(self, event: SessionEventView) -> bool {
        match self.stage {
            Stage::Greeting => event is ApiVersion,
            Stage::Greeted => event is Sent,
            Stage::Replaying => event is Sent,
            Stage::Live => !(event is ApiVersion) && !(event is Sent),
            Stage::Sending => event is Sent,
            Stage::Ended => false,
        }
    }

    /// What an event makes of a stream, given the bus at that time.
    pub open spec fn next(self, bus: BusView, event: SessionEventView) -> (
        SessionView,
        SessionActionView,
    ) {
        match event {
            SessionEventView::ApiVersion(version) => (
                self.in_stage(Stage::Greeted),
                SessionActionView::Send(OutgoingView::ApiVersion(version)),
            ),
            SessionEventView::Sent(false) => (
                self.in_stage(Stage::Ended),
                SessionActionView::Stop,
            ),
            SessionEventView::Sent(true) => if self.stage is Sending {
                (self.in_stage(Stage::Live), SessionActionView::Listen)
            } else {
                self.with_backlog(bus).replaying()
            },
            SessionEventView::Inbound(inbound) => if inbound.ends() {
                (self.in_stage(Stage::Ended), SessionActionView::Stop)
            } else {
                (self, SessionActionView::Listen)
            },
            SessionEventView::Published(published) => if published.id > self.last_sent_id {
                (
                    SessionView {
                        stage: Stage::Sending,
                        last_sent_id: published.id,
                        ..self
                    },
                    SessionActionView::Send(OutgoingView::Event(published)),
                )
            } else {
                (self, SessionActionView::Listen)
            },
            SessionEventView::Lagged => (self, SessionActionView::Listen),
            SessionEventView::Closed => (self.in_stage(Stage::Ended), SessionActionView::Stop),
        }
    }
}

impl View for EventsSession {
    type V = SessionView;

    closed spec fn view(&self) -> SessionView {
        SessionView {
            stage: self.stage,
            last_sent_id: self.last_sent_id,
            start_from: self.start_from,
            loaded: self.loaded,
            backlog: state::event_views(self.backlog@),
        }
    }
}

impl EventsSession {
    /// The network of the stream.
    pub closed spec fn network(self) -> Seq<char> {
        self.guard.network()
    }

    /// The stream is counted as an events connection.
    pub closed spec fn wf(self) -> bool {
        self.guard.kind() == GaugeKind::EventsConnections
    }

    /// Opens a stream. The api version is awaited first.
    pub fn open(metrics: &mut AppMetrics, network: &str, start_from: Option<u64>) -> (r: Self)
        requires
            old(metrics).wf(),
        ensures
            final(metrics).wf(),
            final(metrics).families() == old(metrics).families(),
            final(metrics)@ == old(metrics)@.gauge_raised(GaugeKind::EventsConnections, network@),
            r.wf(),
            r.network() == network@,
            r@ == SessionView::fresh(start_from),
    {
        let guard = metrics.events_connection_guard(network);
        let r = EventsSession {
            stage: Stage::Greeting,
            last_sent_id: 0,
            start_from,
            loaded: false,
            backlog: VecDeque::new(),
            guard,
        };
        assert(r@.backlog =~= Seq::<EventView>::empty());
        r
    }

    /// Closes a stream.
    pub fn close(self, metrics: &mut AppMetrics)
        requires
            old(metrics).wf(),
            self.wf(),
        ensures
            final(metrics).wf(),
            final(metrics).families() == old(metrics).families(),
            final(metrics)@ == old(metrics)@.gauge_lowered(
                GaugeKind::EventsConnections,
                self.network(),
            ),
    {
        metrics.release(self.guard);
    }

    /// Takes the events to replay from the backlog, unless that was done.
    pub fn load_backlog(&mut self, events: &EventBus)
        requires
            old(self).wf(),
        ensures
            final(self).wf(),
            final(self).network() == old(self).network(),
            final(self)@ == old(self)@.with_backlog(events@),
    {
        if self.loaded {
            return;
        }
        self.loaded = true;
        self.backlog = VecDeque::new();
        assert(self@.backlog =~= Seq::<EventView>::empty());
        if let Some(start) = self.start_from {
            let snapshot = events.snapshot_from(start);
            let ghost all = snapshot@;
            for event in it: snapshot
                invariant
                    it.seq() == all,
                    self.wf(),
                    self.network() == old(self).network(),
                    self@ == (SessionView {
                        loaded: true,
                        backlog: state::event_views(all.take(it.index() as int)),
                        ..old(self)@
                    }),
            {
                let ghost before = self.backlog@;
                self.backlog.push_back(event);
                assert(state::event_views(self.backlog@) =~= state::event_views(before).push(
                    event@,
                ));
                assert(state::event_views(all.take(it.index() + 1)) =~= state::event_views(
                    all.take(it.index() as int),
                ).push(event@));
            }
            assert(all.take(all.len() as int) =~= all);
        }
    }

    /// Goes on with the replay, or listens after it.
    fn replay_next(&mut self) -> (r: SessionAction)
        requires
            old(self).wf(),
        ensures
            final(self).wf(),
            final(self).network() == old(self).network(),
            (final(self)@, r@) == old(self)@.replaying(),
    {
        match self.backlog.pop_front() {
            Some(event) => {
                assert(self@.backlog =~= old(self)@.backlog.drop_first());
                self.stage = Stage::Replaying;
                self.last_sent_id = event.id;
                SessionAction::Send(Outgoing::Event(event))
            },
            None => {
                assert(self@.backlog =~= old(self)@.backlog);
                self.stage = Stage::Live;
                SessionAction::Listen
            },
        }
    }

    /// Goes on with a stream after something happened to it.
    pub fn proceed(&mut self, events: &EventBus, event: SessionEvent) -> (r: SessionAction)
        requires
            old(self).wf(),
            old(self)@.awaits(event@),
        ensures
            final(self).wf(),
            final(self).network() == old(self).network(),
            (final(self)@, r@) == old(self)@.next(events@, event@),
    {
        match event {
            SessionEvent::ApiVersion(version) => {
                self.stage = Stage::Greeted;
                SessionAction::Send(Outgoing::ApiVersion(version))
            },
            SessionEvent::Sent(sent) => {
                if !sent {
                    self.stage = Stage::Ended;
                    return SessionAction::Stop;
                }
                if let Stage::Sending = self.stage {
                    self.stage = Stage::Live;
                    return SessionAction::Listen;
                }
                self.load_backlog(events);
                self.replay_next()
            },
            SessionEvent::Inbound(inbound) => {
                if inbound.ends_session() {
                    self.stage = Stage::Ended;
                    SessionAction::Stop
                } else {
                    SessionAction::Listen
                }
            },
            SessionEvent::Published(published) => {
                if published.id > self.last_sent_id {
                    self.stage = Stage::Sending;
                    self.last_sent_id = published.id;
                    SessionAction::Send(Outgoing::Event(published))
                } else {
                    SessionAction::Listen
                }
            },
            SessionEvent::Lagged => SessionAction::Listen,
            SessionEvent::Closed => {
                self.stage = Stage::Ended;
                SessionAction::Stop
            },
        }
    }
}

/// A stream after a series of events, each with the bus at that time.
pub open spec fn session_after(
    session: SessionView,
    steps: Seq<(BusView, SessionEventView)>,
) -> SessionView
    decreases steps.len(),
{
    if steps.len() == 0 {
        session
    } else {
        session_after(session, steps.drop_last()).next(steps.last().0, steps.last().1).0
    }
}

/// Whether each event is one that the stream waited for.
pub open spec fn session_awaits(
    session: SessionView,
    steps: Seq<(BusView, SessionEventView)>,
) -> bool
    decreases steps.len(),
{
    steps.len() > 0 ==> session_awaits(session, steps.drop_last()) && session_after(
        session,
        steps.drop_last(),
    ).awaits(steps.last().1)
}

/// What a client was sent in a series of events.
pub open spec fn session_output(
    session: SessionView,
    steps: Seq<(BusView, SessionEventView)>,
) -> Seq<OutgoingView>
    decreases steps.len(),
{
    if steps.len() == 0 {
        Seq::empty()
    } else {
        let before = session_output(session, steps.drop_last());
        match session_after(session, steps.drop_last()).next(steps.last().0, steps.last().1).1 {
            SessionActionView::Send(outgoing) => before.push(outgoing),
            _ => before,
        }
    }
}

/// Whether the bus was well-formed all along.
pub open spec fn buses_wf(steps: Seq<(BusView, SessionEventView)>) -> bool {
    forall|i: int| 0 <= i < steps.len() ==> (#[trigger] steps[i]).0.wf()
}

/// Whether the events to replay come in order, behind the last one that was
/// sent.
pub open spec fn backlog_ahead(session: SessionView) -> bool {
    forall|i: int, j: int|
        0 <= i < j < session.backlog.len() ==> (#[trigger] session.backlog[i]).id < (
        #[trigger] session.backlog[j]).id
}

proof fn lemma_snapshot_increases(bus: BusView, start_from: u64)
    requires
        bus.wf(),
    ensures
        forall|i: int, j: int|
            0 <= i < j < bus.snapshot(start_from).len() ==> (#[trigger] bus.snapshot(
                start_from,
            )[i]).id < (#[trigger] bus.snapshot(start_from)[j]).id,
        forall|i: int|
            0 <= i < bus.snapshot(start_from).len() ==> (#[trigger] bus.snapshot(start_from)[i]).id
                >= 1,
{
    state::law_snapshot_is_inclusive(bus, start_from);
    let skipped = state::skipped_by(bus, start_from) as int;
    let snapshot = bus.snapshot(start_from);
    assert forall|i: int| 0 <= i < snapshot.len() implies (#[trigger] snapshot[i]).id
        == bus.last_id - bus.backlog.len() + skipped + i + 1 by {
        assert(snapshot[i] == bus.backlog[skipped + i]);
    }
}

/// What holds of a stream all along: what it was sent starts with the api
/// version and goes on with events whose identifiers increase.
pub open spec fn in_order(session: SessionView, output: Seq<OutgoingView>) -> bool {
    &&& backlog_ahead(session)
    &&& session.loaded || session.backlog.len() == 0
    &&& session.stage is Replaying ==> session.loaded
    &&& session.stage is Greeting ==> output.len() == 0 && session.last_sent_id == 0
    &&& session.stage is Greeted ==> output.len() == 1
    &&& !(session.stage is Greeting) && !(session.stage is Ended) ==> output.len() > 0
    &&& output.len() > 0 ==> output[0] is ApiVersion
    &&& output.len() <= 1 ==> session.last_sent_id == 0
    &&& session.stage is Live || session.stage is Sending ==> session.backlog.len() == 0
    &&& forall|i: int| 1 <= i < output.len() ==> #[trigger] output[i] is Event
    &&& forall|i: int|
        1 <= i < output.len() ==> (#[trigger] output[i])->Event_0.id <= session.last_sent_id
    &&& forall|i: int, j: int|
        1 <= i < j < output.len() ==> (#[trigger] output[i])->Event_0.id < (
        #[trigger] output[j])->Event_0.id
    &&& forall|i: int|
        0 <= i < session.backlog.len() ==> session.last_sent_id < (
        #[trigger] session.backlog[i]).id
}

/// A client is greeted with the api version before anything else, and the
/// identifiers of the events that follow only increase, whatever happens and
/// in whatever order.
pub proof fn law_streams_are_in_order(
    session: SessionView,
    steps: Seq<(BusView, SessionEventView)>,
)
    requires
        in_order(session, Seq::empty()),
        session.stage is Greeting,
        session_awaits(session, steps),
        buses_wf(steps),
    ensures
        in_order(session_after(session, steps), session_output(session, steps)),
    decreases steps.len(),
{
    if steps.len() > 0 {
        let fewer = steps.drop_last();
        assert(buses_wf(fewer)) by {
            assert forall|i: int| 0 <= i < fewer.len() implies (#[trigger] fewer[i]).0.wf() by {
                assert(fewer[i] == steps[i]);
            }
        }
        law_streams_are_in_order(session, fewer);
        let before = session_after(session, fewer);
        let bus = steps.last().0;
        assert(steps[steps.len() - 1].0.wf());
        if let Some(start) = before.start_from {
            lemma_snapshot_increases(bus, start);
        }
        lemma_step_in_order(before, session_output(session, fewer), bus, steps.last().1);
    }
}

/// A stream that was just opened is in order, with its backlog loaded or not.
pub proof fn law_fresh_streams_are_in_order(start_from: Option<u64>, bus: BusView)
    requires
        bus.wf(),
    ensures
        in_order(SessionView::fresh(start_from), Seq::empty()),
        in_order(SessionView::fresh(start_from).with_backlog(bus), Seq::empty()),
{
    if let Some(start) = start_from {
        lemma_snapshot_increases(bus, start);
    }
}

proof fn lemma_step_in_order(
    before: SessionView,
    output: Seq<OutgoingView>,
    bus: BusView,
    event: SessionEventView,
)
    requires
        in_order(before, output),
        before.awaits(event),
        bus.wf(),
    ensures
        ({
            let (after, action) = before.next(bus, event);
            in_order(
                after,
                if let SessionActionView::Send(outgoing) = action {
                    output.push(outgoing)
                } else {
                    output
                },
            )
        }),
{
    if let Some(start) = before.start_from {
        lemma_snapshot_increases(bus, start);
    }
    let (after, action) = before.next(bus, event);
    if let SessionActionView::Send(outgoing) = action {
        let longer = output.push(outgoing);
        assert(forall|i: int| 0 <= i < output.len() ==> #[trigger] longer[i] == output[i]);
        if event is Sent {
            let loaded = before.with_backlog(bus);
            assert(after.backlog == loaded.backlog.drop_first());
            assert(before.last_sent_id < loaded.backlog[0].id);
            assert forall|i: int| 0 <= i < after.backlog.len() implies after.last_sent_id < (
            #[trigger] after.backlog[i]).id by {
                assert(after.backlog[i] == loaded.backlog[i + 1]);
            }
            assert forall|i: int, j: int| 0 <= i < j < after.backlog.len() implies (
            #[trigger] after.backlog[i]).id < (#[trigger] after.backlog[j]).id by {
                assert(after.backlog[i] == loaded.backlog[i + 1]);
                assert(after.backlog[j] == loaded.backlog[j + 1]);
            }
        }
    }
}

/// The identifier of the last event of a list, or another one if there is none.
pub open spec fn last_of(otherwise: u64, events: Seq<EventView>) -> u64 {
    if events.len() > 0 {
        events.last().id
    } else {
        otherwise
    }
}

/// Which of the offered events are sent, by identifier.
pub open spec fn sent_of(last: u64, offered: Seq<u64>) -> Seq<u64>
    decreases offered.len(),
{
    if offered.len() == 0 {
        Seq::empty()
    } else {
        let before = sent_of(last, offered.drop_last());
        if offered.last() > last_sent(last, offered.drop_last()) {
            before.push(offered.last())
        } else {
            before
        }
    }
}

/// The last identifier that was sent.
pub open spec fn last_sent(last: u64, offered: Seq<u64>) -> u64
    decreases offered.len(),
{
    if offered.len() == 0 {
        last
    } else {
        let before = last_sent(last, offered.drop_last());
        if offered.last() > before {
            offered.last()
        } else {
            before
        }
    }
}

/// Whatever is offered, the identifiers that a client sees only increase.
pub proof fn law_sent_identifiers_increase(last: u64, offered: Seq<u64>)
    ensures
        forall|i: int|
            0 <= i < sent_of(last, offered).len() ==> last < #[trigger] sent_of(last, offered)[i]
                <= last_sent(last, offered),
        forall|i: int, j: int|
            0 <= i < j < sent_of(last, offered).len() ==> #[trigger] sent_of(last, offered)[i]
                < #[trigger] sent_of(last, offered)[j],
    decreases offered.len(),
{
    if offered.len() > 0 {
        let shorter = offered.drop_last();
        law_sent_identifiers_increase(last, shorter);
        lemma_last_sent_grows(last, shorter);
        let before = sent_of(last, shorter);
        let sent = sent_of(last, offered);
        assert forall|i: int| 0 <= i < sent.len() implies last < #[trigger] sent[i] <= last_sent(
            last,
            offered,
        ) by {
            if i < before.len() {
                assert(sent[i] == before[i]);
            }
        }
        assert forall|i: int, j: int| 0 <= i < j < sent.len() implies #[trigger] sent[i]
            < #[trigger] sent[j] by {
            assert(sent[i] == before[i]);
            if j < before.len() {
                assert(sent[j] == before[j]);
            }
        }
    }
}

proof fn lemma_last_sent_grows(last: u64, offered: Seq<u64>)
    ensures
        last_sent(last, offered) >= last,
    decreases offered.len(),
{
    if offered.len() > 0 {
        lemma_last_sent_grows(last, offered.drop_last());
    }
}

/// The identifiers from one up to another.
pub open spec fn counting(first: nat, last: nat) -> Seq<u64> {
    Seq::new(
        if first <= last {
            (last - first + 1) as nat
        } else {
            0
        },
        |i: int| (first + i) as u64,
    )
}

proof fn lemma_sent_of_counting(last: u64, first: nat, end: nat)
    requires
        first <= last + 1,
        last < u64::MAX,
        end < u64::MAX,
    ensures
        sent_of(last, counting(first, end)) == counting((last + 1) as nat, end),
        last_sent(last, counting(first, end)) == if end > last {
            end
        } else {
            last as nat
        },
    decreases end,
{
    let offered = counting(first, end);
    if first <= end {
        if end > 0 {
            assert(offered.drop_last() =~= counting(first, (end - 1) as nat));
            lemma_sent_of_counting(last, first, (end - 1) as nat);
            if end > last {
                assert(counting((last + 1) as nat, end) =~= counting(
                    (last + 1) as nat,
                    (end - 1) as nat,
                ).push(end as u64));
            } else {
                assert(counting((last + 1) as nat, end) =~= Seq::<u64>::empty());
            }
        } else {
            assert(offered.drop_last() =~= Seq::<u64>::empty());
            assert(sent_of(last, offered.drop_last()) =~= Seq::<u64>::empty());
            assert(counting((last + 1) as nat, end) =~= Seq::<u64>::empty());
        }
    } else {
        assert(offered =~= Seq::<u64>::empty());
        assert(sent_of(last, offered) =~= Seq::<u64>::empty());
        assert(counting((last + 1) as nat, end) =~= Seq::<u64>::empty());
    }
}

/// The identifiers of a list of events.
pub open spec fn ids(events: Seq<EventView>) -> Seq<u64> {
    events.map_values(|event: EventView| event.id)
}

/// The first event that a client sees: the first of its replay, or the first
/// since it subscribed where there is nothing to replay.
pub open spec fn first_seen(subscribed: nat, replay: Seq<EventView>) -> nat {
    if replay.len() > 0 {
        replay.first().id as nat
    } else {
        subscribed + 1
    }
}

/// A client that subscribes when the bus had seen `subscribed` events, is
/// replayed what it asks for of the backlog of a later bus, and then gets every
/// event since it subscribed, sees each event from the first one on exactly once
/// and in order. A replay starts where asked for, or at the oldest event kept where
/// that comes later, and there is one exactly where an event was there to replay.
pub proof fn law_replay_and_live_leave_no_gap(
    subscribed: nat,
    bus: BusView,
    start_from: Option<u64>,
    end: nat,
)
    requires
        bus.wf(),
        subscribed <= bus.last_id <= end < u64::MAX,
    ensures
        ({
            let replay = replayed(bus, start_from);
            &&& ids(replay) + sent_of(last_of(0, replay), counting(subscribed + 1, end))
                == counting(first_seen(subscribed, replay), end)
            &&& replay.len() > 0 <==> start_from is Some && bus.backlog.len() > 0 && start_from->0
                <= bus.last_id
            &&& replay.len() > 0 ==> first_seen(subscribed, replay) == replay_start(
                bus,
                start_from->0,
            )
            &&& replay.len() == 0 ==> first_seen(subscribed, replay) == subscribed + 1
        }),
{
    let replay = replayed(bus, start_from);
    if start_from is Some {
        law_replays_hold_what_was_asked_for(bus, start_from->0, bus.backlog.last());
    }
    if replay.len() > 0 {
        let start = start_from->0;
        state::law_snapshot_is_inclusive(bus, start);
        let skipped = state::skipped_by(bus, start) as int;
        assert(replay == bus.backlog.skip(skipped));
        assert(replay.last() == bus.backlog.last());
        assert(bus.backlog.last().id == bus.last_id);
        assert(replay.first() == bus.backlog[skipped]);
        let last = last_of(0, replay);
        lemma_sent_of_counting(last, subscribed + 1, end);
        assert forall|i: int| 0 <= i < replay.len() implies #[trigger] replay[i].id
            == replay.first().id + i by {
            assert(replay[i] == bus.backlog[skipped + i]);
        }
        assert(ids(replay) =~= counting(replay.first().id as nat, bus.last_id));
        assert(counting(replay.first().id as nat, bus.last_id) + counting(bus.last_id + 1, end)
            =~= counting(replay.first().id as nat, end));
    } else {
        law_live_only_sees_all_since_subscription(subscribed, end);
        assert(ids(replay) =~= Seq::<u64>::empty());
        assert(ids(replay) + counting(subscribed + 1, end) =~= counting(subscribed + 1, end));
    }
}

/// A client that asks for no replay sees every event since it subscribed.
pub proof fn law_live_only_sees_all_since_subscription(subscribed: nat, end: nat)
    requires
        end < u64::MAX,
    ensures
        sent_of(0, counting(subscribed + 1, end)) == counting(subscribed + 1, end),
    decreases end,
{
    let offered = counting(subscribed + 1, end);
    if subscribed + 1 <= end {
        assert(offered.drop_last() =~= counting(subscribed + 1, (end - 1) as nat));
        law_live_only_sees_all_since_subscription(subscribed, (end - 1) as nat);
        lemma_last_sent_counting(subscribed, (end - 1) as nat);
        assert(offered =~= counting(subscribed + 1, (end - 1) as nat).push(end as u64));
    } else {
        assert(offered =~= Seq::<u64>::empty());
    }
}

proof fn lemma_last_sent_counting(subscribed: nat, end: nat)
    requires
        end < u64::MAX,
    ensures
        last_sent(0, counting(subscribed + 1, end)) == if subscribed < end {
            end
        } else {
            0
        },
    decreases end,
{
    let offered = counting(subscribed + 1, end);
    if subscribed + 1 <= end {
        assert(offered.drop_last() =~= counting(subscribed + 1, (end - 1) as nat));
        lemma_last_sent_counting(subscribed, (end - 1) as nat);
    } else {
        assert(offered =~= Seq::<u64>::empty());
    }
}

/// What a live stream makes of a series of published events, each of which is
/// sent where it is to be: the stream, and the events that the client saw.
pub open spec fn publish_all(session: SessionView, bus: BusView, events: Seq<EventView>) -> (
    SessionView,
    Seq<EventView>,
)
    decreases events.len(),
{
    if events.len() == 0 {
        (session, Seq::empty())
    } else {
        let (before, seen) = publish_all(session, bus, events.drop_last());
        let (after, action) = before.next(bus, SessionEventView::Published(events.last()));
        if action is Send {
            (after.next(bus, SessionEventView::Sent(true)).0, seen.push(events.last()))
        } else {
            (after, seen)
        }
    }
}

/// A live stream sends the published events that are behind the last one that
/// it sent, in their order.
pub proof fn law_live_streams_send_what_is_new(
    session: SessionView,
    bus: BusView,
    events: Seq<EventView>,
)
    requires
        session.stage is Live,
    ensures
        publish_all(session, bus, events).0 == (SessionView {
            last_sent_id: last_sent(session.last_sent_id, ids(events)),
            ..session
        }),
        ids(publish_all(session, bus, events).1) == sent_of(session.last_sent_id, ids(events)),
    decreases events.len(),
{
    if events.len() > 0 {
        let fewer = events.drop_last();
        law_live_streams_send_what_is_new(session, bus, fewer);
        assert(ids(events).drop_last() =~= ids(fewer));
        let (before, seen) = publish_all(session, bus, fewer);
        assert(ids(seen.push(events.last())) =~= ids(seen).push(events.last().id));
    } else {
        assert(ids(events) =~= Seq::<u64>::empty());
        assert(ids(publish_all(session, bus, events).1) =~= Seq::<u64>::empty());
    }
}

/// What a stream makes of a number of frames that are sent: the stream, and the
/// events that the client saw.
pub open spec fn send_all(session: SessionView, bus: BusView, frames: nat) -> (
    SessionView,
    Seq<EventView>,
)
    decreases frames,
{
    if frames == 0 {
        (session, Seq::empty())
    } else {
        let (before, seen) = send_all(session, bus, (frames - 1) as nat);
        let (after, action) = before.next(bus, SessionEventView::Sent(true));
        match action {
            SessionActionView::Send(OutgoingView::Event(event)) => (after, seen.push(event)),
            _ => (after, seen),
        }
    }
}

proof fn lemma_send_all(session: SessionView, bus: BusView, frames: nat)
    requires
        session.stage is Greeted,
        session.last_sent_id == 0,
        frames <= session.with_backlog(bus).backlog.len(),
        frames > 0,
    ensures
        ({
            let loaded = session.with_backlog(bus);
            let (after, seen) = send_all(session, bus, frames);
            &&& seen == loaded.backlog.take(frames as int)
            &&& after == SessionView {
                stage: Stage::Replaying,
                last_sent_id: loaded.backlog[frames - 1].id,
                backlog: loaded.backlog.skip(frames as int),
                ..loaded
            }
        }),
    decreases frames,
{
    let loaded = session.with_backlog(bus);
    let fewer = (frames - 1) as nat;
    if fewer > 0 {
        lemma_send_all(session, bus, fewer);
    } else {
        assert(send_all(session, bus, 0) == (session, Seq::<EventView>::empty()));
        assert(loaded.backlog.skip(0) =~= loaded.backlog);
    }
    assert(loaded.backlog.take(frames as int) =~= loaded.backlog.take(fewer as int).push(
        loaded.backlog[fewer as int],
    ));
    assert(loaded.backlog.skip(fewer as int).drop_first() =~= loaded.backlog.skip(frames as int));
}

/// After the api version a client is sent the events that were to be replayed,
/// all of them and in their order, and then the stream is live.
pub proof fn law_replay_sends_the_backlog(session: SessionView, bus: BusView)
    requires
        session.stage is Greeted,
        session.last_sent_id == 0,
    ensures
        ({
            let backlog = session.with_backlog(bus).backlog;
            let (after, seen) = send_all(session, bus, backlog.len() + 1);
            &&& seen == backlog
            &&& after.stage is Live
            &&& after.last_sent_id == last_of(0, backlog)
        }),
{
    let loaded = session.with_backlog(bus);
    let n = loaded.backlog.len();
    if n > 0 {
        lemma_send_all(session, bus, n);
        assert(loaded.backlog.take(n as int) =~= loaded.backlog);
        assert(loaded.backlog.skip(n as int).len() == 0);
    } else {
        assert(send_all(session, bus, 0) == (session, Seq::<EventView>::empty()));
        assert(loaded.backlog =~= Seq::<EventView>::empty());
    }
}

/// An object with an identifier and data.
pub open spec fn envelope_object(id: Json, data: Json) -> Json {
    Json::Object(seq![("id"@, id), ("data"@, data)])
}

fn envelope_text(id: Value, data: Value) -> (r: String)
    ensures
        r@ == json::json_text(envelope_object(json::json_tree(id), json::json_tree(data))),
{
    let members: Vec<(String, Value)> = vec![("id".to_owned(), id), ("data".to_owned(), data)];
    proof {
        reveal_strlit("id");
        reveal_strlit("data");
        assert(json::member_trees(members@) =~= envelope_object(
            json::json_tree(id),
            json::json_tree(data),
        )->Object_0);
        assert("id"@.len() == 2 && "data"@.len() == 4);
        json::lemma_keys_differ(members@);
    }
    render_json(&json_object(members))
}

/// An event as a websocket text frame.
pub fn event_frame(event: &EventEnvelope) -> (r: String)
    ensures
        r@ == json::json_text(
            envelope_object(Json::Number(text::decimal(event.id as nat)), event@.data),
        ),
{
    envelope_text(json_unsigned(event.id), copy_json(&event.data))
}

/// The api version as a websocket text frame, with no identifier.
pub fn api_version_frame(data: &Value) -> (r: String)
    ensures
        r@ == json::json_text(envelope_object(Json::Null, json::json_tree(*data))),
{
    envelope_text(json_null(), copy_json(data))
}

/// A server-sent event.
#[derive(Debug)]
pub struct SseFrame {
    pub id: String,
    pub data: String,
}

/// An event as a server-sent event, with its identifier and its data.
pub fn sse_event(event: &EventEnvelope) -> (r: SseFrame)
    ensures
        r.id@ == text::decimal(event.id as nat),
        r.data@ == json::json_text(event@.data),
{
    SseFrame { id: decimal_text(event.id), data: render_json(&event.data) }
}

/// The api version as a server-sent event, with an empty identifier.
pub fn sse_api_version_event(data: &Value) -> (r: SseFrame)
    ensures
        r.id@ == Seq::<char>::empty(),
        r.data@ == json::json_text(json::json_tree(*data)),
{
    let id = "".to_owned();
    proof {
        reveal_strlit("");
        assert(id@ =~= Seq::<char>::empty());
    }
    SseFrame { id, data: render_json(data) }
}

/// The oldest identifier that the backlog of a bus holds, or the next one where
/// it holds none.
pub open spec fn oldest(bus: BusView) -> nat {
    (bus.last_id - bus.backlog.len() + 1) as nat
}

/// Where a replay from an identifier starts: there, or at the oldest event that
/// is kept, whichever comes later.
pub open spec fn replay_start(bus: BusView, start: u64) -> nat {
    if start <= oldest(bus) {
        oldest(bus)
    } else {
        start as nat
    }
}

/// A client is replayed exactly the events of the backlog from the identifier
/// that it gave on, in their order: from the later of that identifier and the
/// oldest event kept, up to the last event. Where the identifier is not behind
/// the oldest event, that is the whole backlog. A client that gave none is
/// replayed nothing.
pub proof fn law_replays_hold_what_was_asked_for(bus: BusView, start: u64, event: EventView)
    requires
        bus.wf(),
    ensures
        ({
            let replay = replayed(bus, Some(start));
            &&& replay.contains(event) <==> bus.backlog.contains(event) && event.id >= start
            &&& bus.backlog.len() > 0 && start <= bus.backlog[0].id ==> replay == bus.backlog
            &&& replay.len() > 0 <==> bus.backlog.len() > 0 && start <= bus.last_id
            &&& replay.len() > 0 ==> replay.first().id == replay_start(bus, start)
                && replay.last() == bus.backlog.last() && replay.len() == bus.last_id
                - replay_start(bus, start) + 1
            &&& replay == bus.backlog.skip(bus.backlog.len() - replay.len())
            &&& replayed(bus, None).len() == 0
        }),
{
    state::law_snapshots_hold_what_was_asked_for(bus, start, event);
    state::law_snapshot_is_inclusive(bus, start);
}

/// A client that has just come is first sent the api version, then every event
/// of the backlog from the identifier that it gave on, and nothing else; then
/// the stream is live. It makes no difference whether the backlog was taken when
/// the client came or after the api version was sent.
pub proof fn law_a_client_sees_the_backlog_from_its_start(
    start: u64,
    bus: BusView,
    other: BusView,
    version: Json,
    early: bool,
)
    requires
        bus.wf(),
    ensures
        ({
            let opened = if early {
                SessionView::fresh(Some(start)).with_backlog(bus)
            } else {
                SessionView::fresh(Some(start))
            };
            let (greeted, greeting) = opened.next(other, SessionEventView::ApiVersion(version));
            let shown: nat = if bus.backlog.len() > 0 && start <= bus.last_id {
                (bus.last_id - replay_start(bus, start) + 1) as nat
            } else {
                0
            };
            let (after, seen) = send_all(
                greeted,
                if early {
                    other
                } else {
                    bus
                },
                shown + 1,
            );
            &&& greeting == SessionActionView::Send(OutgoingView::ApiVersion(version))
            &&& seen == bus.backlog.skip(bus.backlog.len() - shown)
            &&& after.stage is Live
            &&& after.last_sent_id == if shown > 0 {
                bus.last_id
            } else {
                0
            }
        }),
{
    let opened = if early {
        SessionView::fresh(Some(start)).with_backlog(bus)
    } else {
        SessionView::fresh(Some(start))
    };
    let greeted = opened.next(other, SessionEventView::ApiVersion(version)).0;
    let later = if early {
        other
    } else {
        bus
    };
    law_replays_hold_what_was_asked_for(bus, start, bus.backlog.last());
    assert(greeted.with_backlog(later).backlog == replayed(bus, Some(start)));
    law_replay_sends_the_backlog(greeted, later);
}

/// A client that gave no identifier is sent the api version and is live then.
pub proof fn law_a_client_without_a_start_sees_no_backlog(bus: BusView, version: Json)
    ensures
        ({
            let (greeted, greeting) = SessionView::fresh(None).next(
                bus,
                SessionEventView::ApiVersion(version),
            );
            &&& greeting == SessionActionView::Send(OutgoingView::ApiVersion(version))
            &&& greeted.next(bus, SessionEventView::Sent(true)).1 is Listen
            &&& greeted.next(bus, SessionEventView::Sent(true)).0.stage is Live
            &&& greeted.next(bus, SessionEventView::Sent(true)).0.last_sent_id == 0
        }),
{
}

/// What a live stream does: an event that is new to the client is sent as it
/// was published, and one that is not is passed over. The stream ends when the
/// client closes it or cannot be read, when no more events are published, and
/// when something could not be sent; nothing else ends it.
pub proof fn law_live_streams_go_on(
    session: SessionView,
    bus: BusView,
    event: EventView,
    message: Seq<u8>,
)
    requires
        session.stage is Live,
    ensures
        ({
            let after = |happened: SessionEventView| session.next(bus, happened);
            let inbound = |what: InboundView| after(SessionEventView::Inbound(what));
            let sent = after(SessionEventView::Published(event));
            &&& event.id > session.last_sent_id ==> {
                &&& sent.1 == SessionActionView::Send(OutgoingView::Event(event))
                &&& sent.0.stage is Sending && sent.0.last_sent_id == event.id
                &&& sent.0.next(bus, SessionEventView::Sent(true)) == (
                    SessionView { last_sent_id: event.id, ..session },
                    SessionActionView::Listen,
                )
                &&& sent.0.next(bus, SessionEventView::Sent(false)).1 is Stop
            }
            &&& event.id <= session.last_sent_id ==> sent == (session, SessionActionView::Listen)
            &&& after(SessionEventView::Lagged) == (session, SessionActionView::Listen)
            &&& after(SessionEventView::Closed).1 is Stop
            &&& after(SessionEventView::Closed).0.stage is Ended
            &&& inbound(InboundView::Close).1 is Stop
            &&& inbound(InboundView::Close).0.stage is Ended
            &&& inbound(InboundView::Failed).1 is Stop
            &&& inbound(InboundView::Failed).0.stage is Ended
            &&& inbound(InboundView::Ended).1 is Stop
            &&& inbound(InboundView::Ended).0.stage is Ended
            &&& inbound(InboundView::Other) == (session, SessionActionView::Listen)
            &&& inbound(InboundView::Binary(message)) == (session, SessionActionView::Listen)
        }),
{
}

/// A stream ends where something could not be sent, however far it has come.
pub proof fn law_lost_clients_end_a_stream(session: SessionView, bus: BusView)
    ensures
        session.next(bus, SessionEventView::Sent(false)).1 is Stop,
        session.next(bus, SessionEventView::Sent(false)).0.stage is Ended,
        forall|event: SessionEventView|
            !(#[trigger] session.next(bus, SessionEventView::Sent(false)).0.awaits(event)),
{
}

/// An event is framed as an object with its identifier and its data, and an api
/// version as one with no identifier.
pub proof fn law_frames_hold_identifier_and_data(id: Json, data: Json)
    ensures
        ({
            let frame = envelope_object(id, data);
            &&& frame is Object
            &&& frame->Object_0.len() == 2
            &&& json::member(frame->Object_0, "id"@) == Some(id)
            &&& json::member(frame->Object_0, "data"@) == Some(data)
        }),
{
    reveal_strlit("id");
    reveal_strlit("data");
    let members = envelope_object(id, data)->Object_0;
    assert("id"@.len() == 2 && "data"@.len() == 4);
    assert(json::stands_at(members, "id"@, 0));
    assert(json::stands_at(members, "data"@, 1));
    json::lemma_place_of(members, "id"@, 0);
    json::lemma_place_of(members, "data"@, 1);
}

/// A stream awaits the api version first and then that it was sent, and waits
/// for whatever it sends to be sent. A live stream awaits everything else, and
/// one that has ended awaits nothing.
pub proof fn law_what_streams_await(
    session: SessionView,
    version: Json,
    sent: bool,
    inbound: InboundView,
    event: EventView,
)
    ensures
        session.stage is Greeting <==> session.awaits(SessionEventView::ApiVersion(version)),
        session.stage is Greeted || session.stage is Replaying || session.stage is Sending
            <==> session.awaits(SessionEventView::Sent(sent)),
        session.stage is Live <==> session.awaits(SessionEventView::Inbound(inbound)),
        session.stage is Live <==> session.awaits(SessionEventView::Published(event)),
        session.stage is Live <==> session.awaits(SessionEventView::Lagged),
        session.stage is Live <==> session.awaits(SessionEventView::Closed),
{
}

} // verus!
