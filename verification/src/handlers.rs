//! What the endpoints answer: errors, links and binary messages.

use serde_json::Value;
use vstd::prelude::*;
use vstd::string::*;

use crate::binary_proxy;
use crate::binary_proxy::{BinaryError, BinaryErrorView};
use crate::json;
use crate::json::{json_object, json_string, json_unsigned, render_json, text_bytes, Json};
use crate::metrics::{AppMetrics, GaugeGuard, GaugeKind, MetricsView};
use crate::state;
use crate::state::AppState;
use crate::text;
use crate::text::join;

verus! {

/// Query parameters of the events endpoint.
#[derive(Debug)]
pub struct EventsQuery {
    /// Inclusive event identifier to start replaying from.
    pub start_from: Option<u64>,
}

/// An answer to an HTTP request.
#[derive(Debug)]
pub struct HttpResponse {
    pub status: u16,
    pub content_type: Option<Vec<u8>>,
    pub body: Vec<u8>,
}

/// The view of [`HttpResponse`].
#[verifier::ext_equal]
pub struct HttpView {
    pub status: u16,
    pub content_type: Option<Seq<u8>>,
    pub body: Seq<u8>,
}

/// The view of an optional byte string.
pub open spec fn optional_bytes(bytes: Option<Vec<u8>>) -> Option<Seq<u8>> {
    match bytes {
        Some(bytes) => Some(bytes@),
        None => None,
    }
}

impl View for HttpResponse {
    type V = HttpView;

    open spec fn view(&self) -> HttpView {
        HttpView {
            status: self.status,
            content_type: optional_bytes(self.content_type),
            body: self.body@,
        }
    }
}

/// The bytes of a text.
pub open spec fn utf8(text: Seq<char>) -> Seq<u8> {
    vstd::utf8::encode_utf8(text)
}

/// An answer with a JSON body.
pub open spec fn json_answer(status: u16, tree: Json) -> HttpView {
    HttpView {
        status,
        content_type: Some(utf8("application/json"@)),
        body: utf8(json::json_text(tree)),
    }
}

/// Answers with a JSON body.
pub fn json_response(status: u16, value: &Value) -> (r: HttpResponse)
    ensures
        r@ == json_answer(status, json::json_tree(*value)),
{
    HttpResponse {
        status,
        content_type: Some(text_bytes("application/json")),
        body: text_bytes(render_json(value).as_str()),
    }
}

/// An error that is answered with a status and a JSON body.
#[derive(Debug)]
pub struct AppError {
    status: u16,
    message: String,
}

/// The view of [`AppError`].
#[verifier::ext_equal]
pub struct AppErrorView {
    pub status: u16,
    pub message: Seq<char>,
}

impl View for AppError {
    type V = AppErrorView;

    closed spec fn view(&self) -> AppErrorView {
        AppErrorView { status: self.status, message: self.message@ }
    }
}

/// An object with one text.
pub open spec fn error_object(message: Seq<char>) -> Json {
    Json::Object(seq![("error"@, Json::Text(message))])
}

impl AppErrorView {
    /// How the error is answered.
    pub open spec fn response(self) -> HttpView {
        json_answer(self.status, error_object(self.message))
    }
}

/// An object with one text.
fn error_value(message: &str) -> (r: Value)
    ensures
        json::json_tree(r) == error_object(message@),
{
    let members: Vec<(String, Value)> = vec![("error".to_owned(), json_string(message))];
    assert(json::member_trees(members@) =~= seq![("error"@, Json::Text(message@))]);
    json_object(members)
}

impl AppError {
    /// An error with the given status.
    pub fn new(status: u16, message: String) -> (r: Self)
        ensures
            r@ == (AppErrorView { status, message: message@ }),
    {
        AppError { status, message }
    }

    /// The status of the error.
    pub fn status(&self) -> (r: u16)
        ensures
            r == self@.status,
    {
        self.status
    }

    /// The message of the error.
    pub fn message(&self) -> (r: &str)
        ensures
            r@ == self@.message,
    {
        self.message.as_str()
    }

    /// Something was not found.
    pub fn not_found(message: String) -> (r: Self)
        ensures
            r@ == (AppErrorView { status: 404, message: message@ }),
    {
        AppError::new(404, message)
    }

    /// The request cannot be served.
    pub fn bad_request(message: String) -> (r: Self)
        ensures
            r@ == (AppErrorView { status: 400, message: message@ }),
    {
        AppError::new(400, message)
    }

    /// The upstream failed.
    pub fn bad_gateway(message: String) -> (r: Self)
        ensures
            r@ == (AppErrorView { status: 502, message: message@ }),
    {
        AppError::new(502, message)
    }

    /// The answer for the error.
    pub fn into_response(self) -> (r: HttpResponse)
        ensures
            r@ == self@.response(),
    {
        json_response(self.status, &error_value(self.message.as_str()))
    }
}

/// The error for a network that is not configured.
pub open spec fn unknown_network(name: Seq<char>) -> AppErrorView {
    AppErrorView { status: 404, message: "unknown network: "@ + name }
}

/// Looks up a configured network, or fails with status 404.
pub fn get_network<C>(state: &AppState<C>, name: &str) -> (r: Result<usize, AppError>)
    requires
        state.wf(),
    ensures
        match r {
            Ok(i) => i < state.networks@.len() && state::network_map(
                state.networks@,
            ).contains_key(name@) && state::network_map(state.networks@)[name@]
                == state.networks@[i as int]@,
            Err(err) => !state::network_map(state.networks@).contains_key(name@) && err@
                == unknown_network(name@),
        },
{
    match state::position(&state.networks, name) {
        Some(i) => Ok(i),
        None => Err(AppError::not_found(join("unknown network: ", name))),
    }
}

/// The path of an endpoint of a network.
pub open spec fn endpoint_path(name: Seq<char>, endpoint: Seq<char>) -> Seq<char> {
    "/"@ + name + endpoint
}

/// The links of a network.
pub open spec fn network_links(
    name: Seq<char>,
    network_name: Seq<char>,
    chain_name: Seq<char>,
) -> Json {
    Json::Object(
        seq![
            ("network_name"@, Json::Text(network_name)),
            ("chain_name"@, Json::Text(chain_name)),
            ("rpc"@, Json::Text(endpoint_path(name, "/rpc"@))),
            ("events"@, Json::Text(endpoint_path(name, "/events"@))),
            ("binary"@, Json::Text(endpoint_path(name, "/binary"@))),
        ],
    )
}

fn endpoint_link(name: &str, endpoint: &str) -> (r: Value)
    ensures
        json::json_tree(r) == Json::Text(endpoint_path(name@, endpoint@)),
{
    let mut path = join("/", name);
    path.append(endpoint);
    json_string(path.as_str())
}

/// Answers with the links of a network.
pub fn network_root<C>(state: &AppState<C>, name: &str) -> (r: Result<HttpResponse, AppError>)
    requires
        state.wf(),
    ensures
        match r {
            Ok(response) => state::network_map(state.networks@).contains_key(name@) && response@
                == json_answer(
                200,
                network_links(
                    name@,
                    name@,
                    state::network_map(state.networks@)[name@].config.chain_name,
                ),
            ),
            Err(err) => !state::network_map(state.networks@).contains_key(name@) && err@
                == unknown_network(name@),
        },
{
    let i = match get_network(state, name) {
        Ok(i) => i,
        Err(err) => {
            return Err(err);
        },
    };
    let config = &state.networks[i].config;
    let members: Vec<(String, Value)> = vec![
        ("network_name".to_owned(), json_string(config.network_name.as_str())),
        ("chain_name".to_owned(), json_string(config.chain_name.as_str())),
        ("rpc".to_owned(), endpoint_link(name, "/rpc")),
        ("events".to_owned(), endpoint_link(name, "/events")),
        ("binary".to_owned(), endpoint_link(name, "/binary")),
    ];
    proof {
        reveal_strlit("network_name");
        reveal_strlit("chain_name");
        reveal_strlit("rpc");
        reveal_strlit("events");
        reveal_strlit("binary");
        lemma_found_name(state.networks@, name@);
        assert(json::member_trees(members@) =~= network_links(
            name@,
            config.network_name@,
            config.chain_name@,
        )->Object_0);
        assert("network_name"@.len() == 12 && "chain_name"@.len() == 10 && "rpc"@.len() == 3);
        assert("events"@.len() == 6 && "binary"@.len() == 6);
        assert("events"@[0] != "binary"@[0]);
        assert forall|i: int, j: int| 0 <= i < j < 5 implies #[trigger] members@[i].0@
            != #[trigger] members@[j].0@ by {}
        json::lemma_keys_differ(members@);
    }
    Ok(json_response(200, &json_object(members)))
}

/// A network is found under its own name.
proof fn lemma_found_name<C>(networks: Seq<state::NetworkState<C>>, name: Seq<char>)
    requires
        state::network_map(networks).contains_key(name),
    ensures
        state::network_map(networks)[name].config.network_name == name,
{
    let i = choose|i: int| state::stands_at(networks, name, i);
    assert(state::stands_at(networks, name, i));
}

/// What came in over a websocket.
#[derive(Debug)]
pub enum Inbound {
    /// A message with bytes.
    Binary(Vec<u8>),
    /// The client closes the connection.
    Close,
    /// Any other message.
    Other,
    /// Reading failed.
    Failed,
    /// Nothing more comes.
    Ended,
}

/// The view of [`Inbound`].
#[verifier::ext_equal]
pub enum InboundView {
    Binary(Seq<u8>),
    Close,
    Other,
    Failed,
    Ended,
}

impl View for Inbound {
    type V = InboundView;

    open spec fn view(&self) -> InboundView {
        match self {
            Inbound::Binary(payload) => InboundView::Binary(payload@),
            Inbound::Close => InboundView::Close,
            Inbound::Other => InboundView::Other,
            Inbound::Failed => InboundView::Failed,
            Inbound::Ended => InboundView::Ended,
        }
    }
}

impl InboundView {
    /// Whether what came in ends a session.
    pub open spec fn ends(self) -> bool {
        self is Close || self is Failed || self is Ended
    }
}

impl Inbound {
    /// Whether what came in ends a session.
    pub fn ends_session(&self) -> (r: bool)
        ensures
            r == self@.ends(),
    {
        match self {
            Inbound::Binary(_) => false,
            Inbound::Close => true,
            Inbound::Other => false,
            Inbound::Failed => true,
            Inbound::Ended => true,
        }
    }
}

/// How far a binary websocket has come with a message.
#[derive(Debug)]
pub enum SocketPhase {
    /// The next message is waited for.
    Listening,
    /// The rate limiter is asked about this request.
    Checking(Vec<u8>),
    /// The request is on its way to the upstream.
    Forwarding,
    /// A frame is sent, which must arrive or need not.
    Sending { must_arrive: bool },
    /// The session has ended.
    Stopped,
}

/// The view of [`SocketPhase`].
#[verifier::ext_equal]
pub enum PhaseView {
    Listening,
    Checking(Seq<u8>),
    Forwarding,
    Sending { must_arrive: bool },
    Stopped,
}

impl View for SocketPhase {
    type V = PhaseView;

    open spec fn view(&self) -> PhaseView {
        match self {
            SocketPhase::Listening => PhaseView::Listening,
            SocketPhase::Checking(payload) => PhaseView::Checking(payload@),
            SocketPhase::Forwarding => PhaseView::Forwarding,
            SocketPhase::Sending { must_arrive } => PhaseView::Sending { must_arrive: *must_arrive },
            SocketPhase::Stopped => PhaseView::Stopped,
        }
    }
}

/// What happened on a binary websocket.
#[derive(Debug)]
pub enum SocketEvent {
    /// Something came in.
    Received(Inbound),
    /// The rate limiter lets the request pass.
    Passed,
    /// The rate limiter holds the request back for so many seconds.
    Limited(u64),
    /// The request came to an end.
    Answered(Result<Vec<u8>, BinaryError>),
    /// The frame was sent, or could not be sent.
    Sent(bool),
}

/// The view of [`SocketEvent`].
pub enum SocketEventView {
    Received(InboundView),
    Passed,
    Limited(u64),
    Answered(Result<Seq<u8>, BinaryErrorView>),
    Sent(bool),
}

impl View for SocketEvent {
    type V = SocketEventView;

    open spec fn view(&self) -> SocketEventView {
        match self {
            SocketEvent::Received(inbound) => SocketEventView::Received(inbound@),
            SocketEvent::Passed => SocketEventView::Passed,
            SocketEvent::Limited(secs) => SocketEventView::Limited(*secs),
            SocketEvent::Answered(reply) => SocketEventView::Answered(
                binary_proxy::reply_view(*reply),
            ),
            SocketEvent::Sent(arrived) => SocketEventView::Sent(*arrived),
        }
    }
}

/// What is to be done next for a binary websocket.
#[derive(Debug)]
pub enum SocketAction {
    /// Wait for what the client sends.
    Listen,
    /// Ask the rate limiter whether a request may pass.
    CheckLimit,
    /// Forward this request and await its outcome.
    Forward(Vec<u8>),
    /// Send this frame.
    Send(BinaryFrame),
    /// End the session.
    Stop,
}

/// The view of [`SocketAction`].
#[verifier::ext_equal]
pub enum SocketActionView {
    Listen,
    CheckLimit,
    Forward(Seq<u8>),
    Send(FrameView),
    Stop,
}

impl View for SocketAction {
    type V = SocketActionView;

    open spec fn view(&self) -> SocketActionView {
        match self {
            SocketAction::Listen => SocketActionView::Listen,
            SocketAction::CheckLimit => SocketActionView::CheckLimit,
            SocketAction::Forward(payload) => SocketActionView::Forward(payload@),
            SocketAction::Send(frame) => SocketActionView::Send(frame@),
            SocketAction::Stop => SocketActionView::Stop,
        }
    }
}

impl PhaseView {
    /// Whether an event is one that is waited for.
    pub open spec fn awaits(self, event: SocketEventView) -> bool {
        match self {
            PhaseView::Listening => event is Received,
            PhaseView::Checking(_) => event is Passed || event is Limited,
            PhaseView::Forwarding => event is Answered,
            PhaseView::Sending { .. } => event is Sent,
            PhaseView::Stopped => false,
        }
    }

    /// The phase after an event, and what is to be done then.
    pub open spec fn next(self, event: SocketEventView) -> (PhaseView, SocketActionView) {
        match event {
            SocketEventView::Received(InboundView::Binary(payload)) => (
                PhaseView::Checking(payload),
                SocketActionView::CheckLimit,
            ),
            SocketEventView::Received(InboundView::Other) => (
                PhaseView::Listening,
                SocketActionView::Listen,
            ),
            SocketEventView::Received(_) => (PhaseView::Stopped, SocketActionView::Stop),
            SocketEventView::Passed => (
                PhaseView::Forwarding,
                SocketActionView::Forward(self->Checking_0),
            ),
            SocketEventView::Limited(secs) => (
                PhaseView::Sending { must_arrive: false },
                SocketActionView::Send(limit_frame(secs)),
            ),
            SocketEventView::Answered(reply) => (
                PhaseView::Sending { must_arrive: reply is Ok },
                SocketActionView::Send(reply_frame(reply)),
            ),
            SocketEventView::Sent(arrived) => if !arrived && self->must_arrive {
                (PhaseView::Stopped, SocketActionView::Stop)
            } else {
                (PhaseView::Listening, SocketActionView::Listen)
            },
        }
    }
}

/// The metrics after an event on a binary websocket.
pub open spec fn socket_metrics(
    metrics: MetricsView,
    network: Seq<char>,
    event: SocketEventView,
) -> MetricsView {
    match event {
        SocketEventView::Received(InboundView::Binary(_)) => metrics.binary_request_counted(
            network,
        ),
        SocketEventView::Limited(_) => metrics.binary_response_counted(network, "rate_limited"@),
        _ => metrics,
    }
}

/// A binary websocket of one client.
#[derive(Debug)]
pub struct BinarySession {
    guard: GaugeGuard,
    phase: SocketPhase,
}

/// What is to be done for a binary websocket.
#[derive(Debug)]
pub enum BinaryStep {
    /// Ask the rate limiter whether this request may pass.
    CheckLimit(Vec<u8>),
    /// Wait for what the client sends.
    Listen,
    /// End the session.
    Stop,
}

/// The view of [`BinaryStep`].
pub enum BinaryStepView {
    CheckLimit(Seq<u8>),
    Listen,
    Stop,
}

impl View for BinaryStep {
    type V = BinaryStepView;

    open spec fn view(&self) -> BinaryStepView {
        match self {
            BinaryStep::CheckLimit(payload) => BinaryStepView::CheckLimit(payload@),
            BinaryStep::Listen => BinaryStepView::Listen,
            BinaryStep::Stop => BinaryStepView::Stop,
        }
    }
}

/// What is sent over a binary websocket.
#[derive(Debug)]
pub enum BinaryFrame {
    /// A response of the binary port.
    Binary(Vec<u8>),
    /// An error as JSON.
    Text(String),
}

/// The view of [`BinaryFrame`].
#[verifier::ext_equal]
pub enum FrameView {
    Binary(Seq<u8>),
    Text(Seq<char>),
}

impl View for BinaryFrame {
    type V = FrameView;

    open spec fn view(&self) -> FrameView {
        match self {
            BinaryFrame::Binary(bytes) => FrameView::Binary(bytes@),
            BinaryFrame::Text(text) => FrameView::Text(text@),
        }
    }
}

impl BinaryFrame {
    /// Whether the session ends when the frame cannot be sent: only responses
    /// must arrive.
    pub fn must_arrive(&self) -> (r: bool)
        ensures
            r == (self is Binary),
    {
        match self {
            BinaryFrame::Binary(_) => true,
            BinaryFrame::Text(_) => false,
        }
    }
}

/// The answer to a message over the rate limit.
pub open spec fn rate_limited_object(retry_after_secs: u64) -> Json {
    Json::Object(
        seq![
            ("error"@, Json::Text("rate limit exceeded"@)),
            ("retry_after_secs"@, Json::Number(text::decimal(retry_after_secs as nat))),
        ],
    )
}

impl BinarySession {
    /// The network of the session.
    pub closed spec fn network(self) -> Seq<char> {
        self.guard.network()
    }

    /// How far the session has come.
    pub closed spec fn phase(self) -> PhaseView {
        self.phase@
    }

    /// The session is counted as a binary connection.
    pub closed spec fn wf(self) -> bool {
        self.guard.kind() == GaugeKind::BinaryConnections
    }

    /// Opens a session.
    pub fn open(metrics: &mut AppMetrics, network: &str) -> (r: Self)
        requires
            old(metrics).wf(),
        ensures
            final(metrics).wf(),
            final(metrics).families() == old(metrics).families(),
            final(metrics)@ == old(metrics)@.gauge_raised(GaugeKind::BinaryConnections, network@),
            r.wf(),
            r.network() == network@,
            r.phase() == PhaseView::Listening,
    {
        BinarySession {
            guard: metrics.binary_connection_guard(network),
            phase: SocketPhase::Listening,
        }
    }

    /// Takes what happened and says what is to be done.
    pub fn step(&mut self, metrics: &mut AppMetrics, network: &str, event: SocketEvent) -> (r:
        SocketAction)
        requires
            old(metrics).wf(),
            old(self).wf(),
            old(self).phase().awaits(event@),
        ensures
            final(metrics).wf(),
            final(metrics).families() == old(metrics).families(),
            final(metrics)@ == socket_metrics(old(metrics)@, network@, event@),
            final(self).wf(),
            final(self).network() == old(self).network(),
            (final(self).phase(), r@) == old(self).phase().next(event@),
    {
        match event {
            SocketEvent::Received(inbound) => match receive_binary(metrics, network, inbound) {
                BinaryStep::CheckLimit(payload) => {
                    self.phase = SocketPhase::Checking(payload);
                    SocketAction::CheckLimit
                },
                BinaryStep::Listen => SocketAction::Listen,
                BinaryStep::Stop => {
                    self.phase = SocketPhase::Stopped;
                    SocketAction::Stop
                },
            },
            SocketEvent::Passed => {
                let mut phase = SocketPhase::Forwarding;
                std::mem::swap(&mut phase, &mut self.phase);
                match phase {
                    SocketPhase::Checking(payload) => SocketAction::Forward(payload),
                    _ => SocketAction::Stop,
                }
            },
            SocketEvent::Limited(secs) => {
                self.phase = SocketPhase::Sending { must_arrive: false };
                SocketAction::Send(rate_limited(metrics, network, secs))
            },
            SocketEvent::Answered(reply) => {
                let frame = binary_reply(reply);
                self.phase = SocketPhase::Sending { must_arrive: frame.must_arrive() };
                SocketAction::Send(frame)
            },
            SocketEvent::Sent(arrived) => {
                let must_arrive = match &self.phase {
                    SocketPhase::Sending { must_arrive } => *must_arrive,
                    _ => false,
                };
                if !arrived && must_arrive {
                    self.phase = SocketPhase::Stopped;
                    SocketAction::Stop
                } else {
                    self.phase = SocketPhase::Listening;
                    SocketAction::Listen
                }
            },
        }
    }

    /// Closes a session.
    pub fn close(self, metrics: &mut AppMetrics)
        requires
            old(metrics).wf(),
            self.wf(),
        ensures
            final(metrics).wf(),
            final(metrics).families() == old(metrics).families(),
            final(metrics)@ == old(metrics)@.gauge_lowered(
                GaugeKind::BinaryConnections,
                self.network(),
            ),
    {
        metrics.release(self.guard);
    }
}

/// Takes what came in over a binary websocket. A request is counted before the
/// rate limiter is asked.
pub fn receive_binary(metrics: &mut AppMetrics, network: &str, inbound: Inbound) -> (r: BinaryStep)
    requires
        old(metrics).wf(),
    ensures
        final(metrics).wf(),
        final(metrics).families() == old(metrics).families(),
        final(metrics)@ == if inbound is Binary {
            old(metrics)@.binary_request_counted(network@)
        } else {
            old(metrics)@
        },
        r@ == match inbound {
            Inbound::Binary(payload) => BinaryStepView::CheckLimit(payload@),
            Inbound::Other => BinaryStepView::Listen,
            _ => BinaryStepView::Stop,
        },
{
    match inbound {
        Inbound::Binary(payload) => {
            metrics.increment_binary_requests(network);
            BinaryStep::CheckLimit(payload)
        },
        Inbound::Other => BinaryStep::Listen,
        _ => BinaryStep::Stop,
    }
}

/// Answers a request over the rate limit: it is told when to come back and is
/// not forwarded.
pub fn rate_limited(metrics: &mut AppMetrics, network: &str, retry_after_secs: u64) -> (r:
    BinaryFrame)
    requires
        old(metrics).wf(),
    ensures
        final(metrics).wf(),
        final(metrics).families() == old(metrics).families(),
        final(metrics)@ == old(metrics)@.binary_response_counted(network@, "rate_limited"@),
        r@ == limit_frame(retry_after_secs),
{
    metrics.increment_binary_response(network, "rate_limited");
    let members: Vec<(String, Value)> = vec![
        ("error".to_owned(), json_string("rate limit exceeded")),
        ("retry_after_secs".to_owned(), json_unsigned(retry_after_secs)),
    ];
    proof {
        reveal_strlit("error");
        reveal_strlit("retry_after_secs");
        assert(json::member_trees(members@) =~= rate_limited_object(retry_after_secs)->Object_0);
        assert("error"@.len() == 5 && "retry_after_secs"@.len() == 16);
        json::lemma_keys_differ(members@);
    }
    BinaryFrame::Text(render_json(&json_object(members)))
}

/// The frame for a request over the rate limit.
pub open spec fn limit_frame(retry_after_secs: u64) -> FrameView {
    FrameView::Text(json::json_text(rate_limited_object(retry_after_secs)))
}

/// The frame for what a binary request came to.
pub open spec fn reply_frame(reply: Result<Seq<u8>, BinaryErrorView>) -> FrameView {
    match reply {
        Ok(bytes) => FrameView::Binary(bytes),
        Err(err) => FrameView::Text(json::json_text(error_object(err.text()))),
    }
}

/// Answers a binary request.
pub fn binary_reply(reply: Result<Vec<u8>, BinaryError>) -> (r: BinaryFrame)
    ensures
        r@ == reply_frame(binary_proxy::reply_view(reply)),
{
    match reply {
        Ok(bytes) => BinaryFrame::Binary(bytes),
        Err(err) => BinaryFrame::Text(render_json(&error_value(err.message().as_str()))),
    }
}

/// The phase that events lead to.
pub open spec fn phase_after(events: Seq<SocketEventView>) -> PhaseView
    decreases events.len(),
{
    if events.len() == 0 {
        PhaseView::Listening
    } else {
        phase_after(events.drop_last()).next(events.last()).0
    }
}

/// Whether each event is one that the session waited for.
pub open spec fn is_session(events: Seq<SocketEventView>) -> bool
    decreases events.len(),
{
    events.len() == 0 || (is_session(events.drop_last()) && phase_after(events.drop_last()).awaits(
        events.last(),
    ))
}

/// The frames that events lead to.
pub open spec fn frames_sent(events: Seq<SocketEventView>) -> Seq<FrameView>
    decreases events.len(),
{
    if events.len() == 0 {
        Seq::empty()
    } else {
        let before = frames_sent(events.drop_last());
        match phase_after(events.drop_last()).next(events.last()).1 {
            SocketActionView::Send(frame) => before.push(frame),
            _ => before,
        }
    }
}

/// The requests that are forwarded.
pub open spec fn requests_forwarded(events: Seq<SocketEventView>) -> Seq<Seq<u8>>
    decreases events.len(),
{
    if events.len() == 0 {
        Seq::empty()
    } else {
        let before = requests_forwarded(events.drop_last());
        match phase_after(events.drop_last()).next(events.last()).1 {
            SocketActionView::Forward(payload) => before.push(payload),
            _ => before,
        }
    }
}

/// A binary message, and what it came to: it was held back, or it was forwarded
/// and came to a reply.
pub struct Handled {
    pub payload: Seq<u8>,
    pub outcome: Result<Result<Seq<u8>, BinaryErrorView>, u64>,
}

impl Handled {
    /// The frame that answers the message.
    pub open spec fn frame(self) -> FrameView {
        match self.outcome {
            Ok(reply) => reply_frame(reply),
            Err(secs) => limit_frame(secs),
        }
    }
}

/// The binary messages that came in.
pub open spec fn messages(events: Seq<SocketEventView>) -> Seq<Seq<u8>>
    decreases events.len(),
{
    if events.len() == 0 {
        Seq::empty()
    } else {
        let before = messages(events.drop_last());
        match events.last() {
            SocketEventView::Received(InboundView::Binary(payload)) => before.push(payload),
            _ => before,
        }
    }
}

/// The binary messages that came to something, with what they came to.
pub open spec fn handled(events: Seq<SocketEventView>) -> Seq<Handled>
    decreases events.len(),
{
    if events.len() == 0 {
        Seq::empty()
    } else {
        let before = handled(events.drop_last());
        let payload = messages(events).last();
        match events.last() {
            SocketEventView::Limited(secs) => before.push(Handled { payload, outcome: Err(secs) }),
            SocketEventView::Answered(reply) => before.push(
                Handled { payload, outcome: Ok(reply) },
            ),
            _ => before,
        }
    }
}

/// Each binary message gets exactly one frame, in the order of the messages: the
/// frame for what that message came to. Only the last message may still be on
/// its way.
pub proof fn law_one_frame_per_message(events: Seq<SocketEventView>)
    requires
        is_session(events),
    ensures
        frames_sent(events) == handled(events).map_values(|message: Handled| message.frame()),
        messages(events) == handled(events).map_values(|message: Handled| message.payload)
            + match phase_after(events) {
            PhaseView::Checking(payload) => seq![payload],
            PhaseView::Forwarding => seq![messages(events).last()],
            _ => Seq::empty(),
        },
        phase_after(events) is Forwarding ==> messages(events).len() > 0,
    decreases events.len(),
{
    let frame = |message: Handled| message.frame();
    let payload = |message: Handled| message.payload;
    let none = Seq::<Seq<u8>>::empty();
    if events.len() == 0 {
        assert(handled(events).map_values(frame) =~= frames_sent(events));
        assert(messages(events) =~= handled(events).map_values(payload) + none);
    } else {
        let fewer = events.drop_last();
        law_one_frame_per_message(fewer);
        assert(frames_sent(events) =~= handled(events).map_values(frame));
        let on_its_way = match phase_after(events) {
            PhaseView::Checking(payload) => seq![payload],
            PhaseView::Forwarding => seq![messages(events).last()],
            _ => none,
        };
        assert(messages(events) =~= handled(events).map_values(payload) + on_its_way);
    }
}

/// A request that is forwarded is a message as it came.
pub proof fn law_forwarded_requests_are_messages(events: Seq<SocketEventView>)
    requires
        is_session(events),
    ensures
        forall|request: Seq<u8>| #[trigger]
            requests_forwarded(events).contains(request) ==> messages(events).contains(request),
        phase_after(events) matches PhaseView::Checking(payload) ==> messages(events).contains(
            payload,
        ),
    decreases events.len(),
{
    if events.len() > 0 {
        let fewer = events.drop_last();
        law_forwarded_requests_are_messages(fewer);
        let before = messages(fewer);
        let after = messages(events);
        if after.len() > before.len() {
            assert(after.last() == events.last()->Received_0->Binary_0);
            assert(after[after.len() - 1] == after.last());
        }
        assert forall|payload: Seq<u8>| #[trigger] before.contains(payload) implies after.contains(
            payload,
        ) by {
            let i = before.index_of(payload);
            assert(after[i] == payload);
        }
        assert forall|request: Seq<u8>| #[trigger]
            requests_forwarded(events).contains(request) implies after.contains(request) by {
            let sent = requests_forwarded(events);
            let i = sent.index_of(request);
            if i < requests_forwarded(fewer).len() {
                assert(requests_forwarded(fewer)[i] == request);
                assert(requests_forwarded(fewer).contains(request));
            }
        }
    }
}

/// A session goes on after every answer that was not lost: it ends when the
/// client ends it, or when a response of the upstream cannot be sent.
pub proof fn law_errors_do_not_end_a_session(events: Seq<SocketEventView>)
    requires
        is_session(events),
    ensures
        phase_after(events) is Stopped <==> (events.len() > 0 && match events.last() {
            SocketEventView::Received(inbound) => !(inbound is Binary) && !(inbound is Other),
            SocketEventView::Sent(arrived) => !arrived && (frames_sent(
                events.drop_last(),
            ).last() is Binary),
            _ => false,
        }),
{
    if events.len() > 0 {
        let fewer = events.drop_last();
        if fewer.len() > 0 {
            assert(phase_after(fewer) == phase_after(fewer.drop_last()).next(fewer.last()).0);
        }
    }
}

/// What a binary websocket does, step by step. A message is held until the rate
/// limiter was asked, and is forwarded as it came where it passes. A reply is
/// sent as it came and must arrive; an error is sent as text and need not. Once
/// a frame is through, or need not be, the next message is waited for. The
/// session ends when the client ends it or cannot be read, and when a reply
/// cannot be sent.
pub proof fn law_what_a_binary_websocket_does(
    payload: Seq<u8>,
    reply: Seq<u8>,
    err: BinaryErrorView,
    secs: u64,
)
    ensures
        ({
            let received = |inbound: InboundView|
                PhaseView::Listening.next(SocketEventView::Received(inbound));
            let must = PhaseView::Sending { must_arrive: true };
            let need_not = PhaseView::Sending { must_arrive: false };
            let listen = (PhaseView::Listening, SocketActionView::Listen);
            let stop = (PhaseView::Stopped, SocketActionView::Stop);
            &&& received(InboundView::Binary(payload)) == (
                PhaseView::Checking(payload),
                SocketActionView::CheckLimit,
            )
            &&& received(InboundView::Other) == listen
            &&& received(InboundView::Close) == stop
            &&& received(InboundView::Failed) == stop
            &&& received(InboundView::Ended) == stop
            &&& PhaseView::Checking(payload).next(SocketEventView::Passed) == (
                PhaseView::Forwarding,
                SocketActionView::Forward(payload),
            )
            &&& PhaseView::Checking(payload).next(SocketEventView::Limited(secs)) == (
                need_not,
                SocketActionView::Send(limit_frame(secs)),
            )
            &&& PhaseView::Forwarding.next(SocketEventView::Answered(Ok(reply))) == (
                must,
                SocketActionView::Send(FrameView::Binary(reply)),
            )
            &&& PhaseView::Forwarding.next(SocketEventView::Answered(Err(err))) == (
                need_not,
                SocketActionView::Send(
                    FrameView::Text(json::json_text(error_object(err.text()))),
                ),
            )
            &&& must.next(SocketEventView::Sent(true)) == listen
            &&& must.next(SocketEventView::Sent(false)) == stop
            &&& need_not.next(SocketEventView::Sent(true)) == listen
            &&& need_not.next(SocketEventView::Sent(false)) == listen
        }),
{
}

/// The messages that the rate limiter let pass.
pub open spec fn messages_passed(events: Seq<SocketEventView>) -> Seq<Seq<u8>>
    decreases events.len(),
{
    if events.len() == 0 {
        Seq::empty()
    } else {
        let before = messages_passed(events.drop_last());
        if events.last() is Passed {
            before.push(messages(events).last())
        } else {
            before
        }
    }
}

/// Exactly the messages that the rate limiter let pass are forwarded, in their
/// order.
pub proof fn law_passed_messages_are_forwarded(events: Seq<SocketEventView>)
    requires
        is_session(events),
    ensures
        requests_forwarded(events) == messages_passed(events),
    decreases events.len(),
{
    if events.len() > 0 {
        let fewer = events.drop_last();
        law_passed_messages_are_forwarded(fewer);
        law_one_frame_per_message(fewer);
        if let PhaseView::Checking(payload) = phase_after(fewer) {
            assert(messages(fewer).last() == payload);
        }
    }
}

/// A client over the rate limit is told so, and after how many seconds to come
/// back.
pub proof fn law_limited_clients_are_told_when_to_come_back(secs: u64)
    ensures
        ({
            let tree = rate_limited_object(secs);
            let members = tree->Object_0;
            &&& limit_frame(secs) == FrameView::Text(json::json_text(tree))
            &&& tree is Object && members.len() == 2
            &&& json::member(members, "error"@) == Some(Json::Text("rate limit exceeded"@))
            &&& json::member(members, "retry_after_secs"@) == Some(
                Json::Number(text::decimal(secs as nat)),
            )
        }),
{
    reveal_strlit("error");
    reveal_strlit("retry_after_secs");
    let members = rate_limited_object(secs)->Object_0;
    assert("error"@.len() == 5 && "retry_after_secs"@.len() == 16);
    assert(json::keys_differ(members));
    json::lemma_place_of(members, "error"@, 0);
    json::lemma_place_of(members, "retry_after_secs"@, 1);
}

/// Every error is answered with its status and a JSON object that holds its
/// message and nothing else.
pub proof fn law_errors_are_answered_with_their_message(err: AppErrorView)
    ensures
        ({
            let tree = error_object(err.message);
            &&& err.response().status == err.status
            &&& err.response().content_type == Some(utf8("application/json"@))
            &&& err.response().body == utf8(json::json_text(tree))
            &&& tree is Object && tree->Object_0.len() == 1
            &&& json::member(tree->Object_0, "error"@) == Some(Json::Text(err.message))
        }),
{
    let members = error_object(err.message)->Object_0;
    json::lemma_place_of(members, "error"@, 0);
}

/// An unknown network is answered with status 404 and its name.
pub proof fn law_unknown_networks_are_not_found(name: Seq<char>)
    ensures
        unknown_network(name).status == 404,
        unknown_network(name).message == "unknown network: "@ + name,
{
}

/// The links of a network: its names, and the paths of its endpoints, each of
/// which starts with the name under which the network was asked for.
pub proof fn law_links_name_the_endpoints(
    name: Seq<char>,
    network_name: Seq<char>,
    chain_name: Seq<char>,
)
    ensures
        ({
            let tree = network_links(name, network_name, chain_name);
            let members = tree->Object_0;
            &&& tree is Object && members.len() == 5
            &&& json::member(members, "network_name"@) == Some(Json::Text(network_name))
            &&& json::member(members, "chain_name"@) == Some(Json::Text(chain_name))
            &&& json::member(members, "rpc"@) == Some(Json::Text("/"@ + name + "/rpc"@))
            &&& json::member(members, "events"@) == Some(Json::Text("/"@ + name + "/events"@))
            &&& json::member(members, "binary"@) == Some(Json::Text("/"@ + name + "/binary"@))
        }),
{
    reveal_strlit("network_name");
    reveal_strlit("chain_name");
    reveal_strlit("rpc");
    reveal_strlit("events");
    reveal_strlit("binary");
    let members = network_links(name, network_name, chain_name)->Object_0;
    assert("network_name"@.len() == 12 && "chain_name"@.len() == 10 && "rpc"@.len() == 3);
    assert("events"@.len() == 6 && "binary"@.len() == 6);
    assert("events"@[0] != "binary"@[0]);
    assert(json::keys_differ(members));
    json::lemma_place_of(members, "network_name"@, 0);
    json::lemma_place_of(members, "chain_name"@, 1);
    json::lemma_place_of(members, "rpc"@, 2);
    json::lemma_place_of(members, "events"@, 3);
    json::lemma_place_of(members, "binary"@, 4);
}

/// Every binary message is counted as a request, every message over the rate
/// limit as a response of that outcome, and nothing else is counted here.
pub proof fn law_messages_are_counted(
    metrics: MetricsView,
    network: Seq<char>,
    payload: Seq<u8>,
    secs: u64,
    event: SocketEventView,
)
    ensures
        socket_metrics(
            metrics,
            network,
            SocketEventView::Received(InboundView::Binary(payload)),
        ) == metrics.binary_request_counted(network),
        socket_metrics(metrics, network, SocketEventView::Limited(secs))
            == metrics.binary_response_counted(network, "rate_limited"@),
        !(event is Limited) && !(event is Received && event->Received_0 is Binary)
            ==> socket_metrics(metrics, network, event) == metrics,
{
}

/// A binary websocket awaits a message, then the rate limiter, then the outcome
/// of the request where it was let pass, and then that its frame was sent.
pub proof fn law_what_binary_websockets_await(
    phase: PhaseView,
    inbound: InboundView,
    secs: u64,
    reply: Result<Seq<u8>, BinaryErrorView>,
    sent: bool,
)
    ensures
        phase is Listening <==> phase.awaits(SocketEventView::Received(inbound)),
        phase is Checking <==> phase.awaits(SocketEventView::Passed),
        phase is Checking <==> phase.awaits(SocketEventView::Limited(secs)),
        phase is Forwarding <==> phase.awaits(SocketEventView::Answered(reply)),
        phase is Sending <==> phase.awaits(SocketEventView::Sent(sent)),
{
}

} // verus!
