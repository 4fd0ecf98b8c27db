//! Binary port proxy: how one request runs over a pooled upstream connection,
//! and what the client is answered.

use std::time::Duration;
use vstd::prelude::*;
use vstd::string::*;

use crate::metrics::{AppMetrics, GaugeGuard, GaugeKind, MetricsView};
use crate::request;
use crate::request::{parse_request, InformationRequest};
use crate::response;
use crate::response::{rewrite_response_bytes, EnvelopeView};
use crate::text;
use crate::text::{decimal_text, join};
use crate::wire;
use crate::wire::{
    codec_error_text, encode_error, encode_response_and_request, length_bytes, ErrorCode,
};

verus! {

/// The largest request that is forwarded.
pub const MAX_MESSAGE_SIZE_BYTES: usize = 4194304;

/// The kinds of I/O errors that the proxy tells apart.
#[derive(Clone, Copy, Debug, PartialEq, Eq, Structural)]
pub enum IoErrorKind {
    UnexpectedEof,
    ConnectionReset,
    ConnectionAborted,
    BrokenPipe,
    Other,
}

/// Errors produced by binary port forwarding.
#[derive(Debug)]
pub enum BinaryError {
    Io { kind: IoErrorKind, message: String },
    ChannelClosed,
    ConnectionUnavailable,
    RequestTooLarge { allowed: usize, got: usize },
    ResponseEncoding(String),
}

/// The view of [`BinaryError`].
#[verifier::ext_equal]
pub enum BinaryErrorView {
    Io { kind: IoErrorKind, message: Seq<char> },
    ChannelClosed,
    ConnectionUnavailable,
    RequestTooLarge { allowed: usize, got: usize },
    ResponseEncoding(Seq<char>),
}

impl View for BinaryError {
    type V = BinaryErrorView;

    open spec fn view(&self) -> BinaryErrorView {
        match self {
            BinaryError::Io { kind, message } => BinaryErrorView::Io {
                kind: *kind,
                message: message@,
            },
            BinaryError::ChannelClosed => BinaryErrorView::ChannelClosed,
            BinaryError::ConnectionUnavailable => BinaryErrorView::ConnectionUnavailable,
            BinaryError::RequestTooLarge { allowed, got } => BinaryErrorView::RequestTooLarge {
                allowed: *allowed,
                got: *got,
            },
            BinaryError::ResponseEncoding(message) => BinaryErrorView::ResponseEncoding(message@),
        }
    }
}

impl BinaryErrorView {
    /// The text of the error.
    pub open spec fn text(self) -> Seq<char> {
        match self {
            BinaryErrorView::Io { message, .. } => "io error: "@ + message,
            BinaryErrorView::ChannelClosed => "channel closed"@,
            BinaryErrorView::ConnectionUnavailable => "connection unavailable"@,
            BinaryErrorView::RequestTooLarge { allowed, got } => "request too large (allowed "@
                + text::decimal(allowed as nat) + ", got "@ + text::decimal(got as nat) + ")"@,
            BinaryErrorView::ResponseEncoding(message) => "response encoding error: "@ + message,
        }
    }
}

impl BinaryError {
    /// The text of the error.
    pub fn message(&self) -> (r: String)
        ensures
            r@ == self@.text(),
    {
        match self {
            BinaryError::Io { message, .. } => join("io error: ", message.as_str()),
            BinaryError::ChannelClosed => "channel closed".to_owned(),
            BinaryError::ConnectionUnavailable => "connection unavailable".to_owned(),
            BinaryError::RequestTooLarge { allowed, got } => {
                let allowed_text = decimal_text(*allowed as u64);
                let got_text = decimal_text(*got as u64);
                let mut r = join("request too large (allowed ", allowed_text.as_str());
                r.append(", got ");
                r.append(got_text.as_str());
                r.append(")");
                r
            },
            BinaryError::ResponseEncoding(message) => join(
                "response encoding error: ",
                message.as_str(),
            ),
        }
    }
}

/// The view of what a request came to.
pub open spec fn reply_view(reply: Result<Vec<u8>, BinaryError>) -> Result<
    Seq<u8>,
    BinaryErrorView,
> {
    match reply {
        Ok(bytes) => Ok(bytes@),
        Err(err) => Err(err@),
    }
}

/// An error response to a request, with the request attached.
pub open spec fn error_reply(code: ErrorCode, request: Seq<u8>) -> Seq<u8> {
    wire::envelope_wire(request, wire::response_wire(wire::error_fields(code)))
}

/// The answer to a request that is not forwarded.
pub open spec fn refusal(code: ErrorCode, request: Seq<u8>) -> Result<Seq<u8>, BinaryErrorView> {
    if wire::fits(error_reply(code, request).len()) {
        Ok(error_reply(code, request))
    } else {
        Err(
            BinaryErrorView::ResponseEncoding(
                wire::codec_text(casper_types::bytesrepr::Error::OutOfMemory),
            ),
        )
    }
}

/// Builds an error response with the request attached.
pub fn build_error_response(error_code: ErrorCode, request: &[u8]) -> (r: Result<
    Vec<u8>,
    BinaryError,
>)
    ensures
        reply_view(r) == refusal(error_code, request@),
{
    let encoded = match encode_error(error_code) {
        Ok(wire) => encode_response_and_request(request, wire.as_slice()),
        Err(err) => Err(err),
    };
    match encoded {
        Ok(bytes) => Ok(bytes),
        Err(err) => Err(BinaryError::ResponseEncoding(codec_error_text(&err))),
    }
}

/// Whether an exchange failed in a way that a new connection may mend.
pub open spec fn retryable(result: Result<Seq<u8>, BinaryErrorView>) -> bool {
    result matches Err(BinaryErrorView::Io { kind, .. }) && (kind is UnexpectedEof || kind
        is ConnectionReset || kind is ConnectionAborted || kind is BrokenPipe)
}

/// Whether an exchange failed in a way that a new connection may mend.
pub fn is_retryable_io_error(result: &Result<Vec<u8>, BinaryError>) -> (r: bool)
    ensures
        r == retryable(reply_view(*result)),
{
    match result {
        Err(BinaryError::Io { kind, .. }) => match kind {
            IoErrorKind::UnexpectedEof => true,
            IoErrorKind::ConnectionReset => true,
            IoErrorKind::ConnectionAborted => true,
            IoErrorKind::BrokenPipe => true,
            IoErrorKind::Other => false,
        },
        _ => false,
    }
}

/// The answer to a client whose request the upstream answered.
pub open spec fn upstream_reply(request: Seq<u8>, response: Seq<u8>) -> Seq<u8> {
    match response::rewritten(response) {
        Ok(bytes) => bytes,
        Err(err) => error_reply(err.code(), request),
    }
}

/// A request as it is framed for the upstream: with its length in front.
pub fn frame_request(payload: &[u8]) -> (r: Vec<u8>)
    requires
        wire::fits(payload@.len()),
    ensures
        r@ == wire::sized(payload@),
{
    let mut r = length_bytes(payload.len() as u32);
    r.extend_from_slice(payload);
    assert(r@ =~= wire::sized(payload@));
    r
}

/// A bounded pool of upstream connections. `C` is a connection; the pool hands
/// the idle ones out again and counts those that are open.
pub struct BinaryPool<C> {
    network: String,
    address: String,
    limit: usize,
    open: usize,
    idle: Vec<C>,
}

/// The view of [`BinaryPool`].
#[verifier::ext_equal]
pub struct PoolView<C> {
    pub network: Seq<char>,
    pub address: Seq<char>,
    pub limit: nat,
    pub open: nat,
    pub idle: Seq<C>,
}

impl<C> View for BinaryPool<C> {
    type V = PoolView<C>;

    closed spec fn view(&self) -> PoolView<C> {
        PoolView {
            network: self.network@,
            address: self.address@,
            limit: self.limit as nat,
            open: self.open as nat,
            idle: self.idle@,
        }
    }
}

impl<C> PoolView<C> {
    /// Idle connections are open, and no more connections are open than the
    /// pool allows.
    pub open spec fn wf(self) -> bool {
        self.idle.len() <= self.open <= self.limit && 1 <= self.limit <= usize::MAX
    }
}

/// What a request that needs a connection is to do.
#[derive(Debug)]
pub enum PoolStep<C> {
    /// Use this connection, which was idle.
    Use(C),
    /// Open a connection, which is counted already.
    Open,
    /// Ask again when a connection was returned or closed.
    Wait,
}

impl<C> PoolView<C> {
    /// What a request that needs a connection is to do.
    pub open spec fn step(self) -> PoolStep<C> {
        if self.idle.len() > 0 {
            PoolStep::Use(self.idle.last())
        } else if self.open < self.limit {
            PoolStep::Open
        } else {
            PoolStep::Wait
        }
    }

    /// The pool once it was told so.
    pub open spec fn stepped(self) -> PoolView<C> {
        match self.step() {
            PoolStep::Use(_) => PoolView { idle: self.idle.drop_last(), ..self },
            PoolStep::Open => PoolView { open: self.open + 1, ..self },
            PoolStep::Wait => self,
        }
    }

    /// The pool with a connection that was in use returned.
    pub open spec fn returned(self, connection: C) -> PoolView<C> {
        PoolView { idle: self.idle.push(connection), ..self }
    }

    /// The pool with a connection that was in use closed.
    pub open spec fn closed(self) -> PoolView<C> {
        PoolView { open: (self.open - 1) as nat, ..self }
    }

    /// How many connections are in use.
    pub open spec fn in_use(self) -> int {
        self.open - self.idle.len()
    }
}

/// A request waits only while every connection that the pool allows is in use,
/// and goes on when one is given back: over the connection that was returned,
/// or over a new one in the place of the one that was closed.
pub proof fn law_a_return_ends_the_wait<C>(pool: PoolView<C>, connection: C)
    requires
        pool.wf(),
    ensures
        pool.step() is Wait <==> pool.in_use() == pool.limit,
        pool.step() is Wait ==> pool.returned(connection).step() == PoolStep::Use(connection),
        pool.step() is Wait ==> pool.returned(connection).stepped() == pool,
        pool.step() is Wait ==> pool.closed().step() == PoolStep::<C>::Open,
        pool.step() is Wait ==> pool.closed().stepped() == pool,
{
    assert(pool.returned(connection).idle.drop_last() =~= pool.idle);
}

/// A request that does not wait takes a connection into use, and giving it back
/// leaves the pool with as many in use as before.
pub proof fn law_a_step_takes_one_connection<C>(pool: PoolView<C>, connection: C)
    requires
        pool.wf(),
        !(pool.step() is Wait),
    ensures
        pool.stepped().wf(),
        pool.stepped().in_use() == pool.in_use() + 1,
        pool.stepped().returned(connection).wf(),
        pool.stepped().returned(connection).in_use() == pool.in_use(),
        pool.stepped().closed().wf(),
        pool.stepped().closed().in_use() == pool.in_use(),
{
}

impl<C> BinaryPool<C> {
    /// Creates a pool with an upper bound on concurrent upstream connections.
    pub fn new(network: String, address: String, max_connections: usize) -> (r: Self)
        ensures
            r@.wf(),
            r@ == (PoolView {
                network: network@,
                address: address@,
                limit: if max_connections == 0 {
                    1
                } else {
                    max_connections as nat
                },
                open: 0,
                idle: Seq::<C>::empty(),
            }),
    {
        let limit: usize = if max_connections == 0 {
            1
        } else {
            max_connections
        };
        let r = BinaryPool { network, address, limit, open: 0, idle: Vec::new() };
        assert(r@.idle =~= Seq::<C>::empty());
        r
    }

    /// The upstream address.
    pub fn address(&self) -> (r: &str)
        ensures
            r@ == self@.address,
    {
        self.address.as_str()
    }

    /// The network that the pool serves.
    pub fn network(&self) -> (r: &str)
        ensures
            r@ == self@.network,
    {
        self.network.as_str()
    }

    /// The most connections that may be open.
    pub fn max_connections(&self) -> (r: usize)
        ensures
            r == self@.limit,
    {
        self.limit
    }

    /// Takes the connection that was returned last, if one is idle.
    pub fn get_connection(&mut self) -> (r: Option<C>)
        requires
            old(self)@.wf(),
        ensures
            final(self)@.wf(),
            match r {
                Some(connection) => old(self)@.idle.len() > 0 && connection
                    == old(self)@.idle.last() && final(self)@ == (PoolView {
                    idle: old(self)@.idle.drop_last(),
                    ..old(self)@
                }),
                None => old(self)@.idle.len() == 0 && final(self)@ == old(self)@,
            },
    {
        let r = self.idle.pop();
        assert(r is Some ==> self@.idle =~= old(self)@.idle.drop_last());
        assert(r is None ==> self@.idle =~= old(self)@.idle);
        r
    }

    /// Counts a connection that is about to be opened, unless the bound is
    /// reached.
    pub fn open_connection(&mut self) -> (r: bool)
        requires
            old(self)@.wf(),
        ensures
            final(self)@.wf(),
            r == (old(self)@.open < old(self)@.limit),
            final(self)@ == (if r {
                PoolView { open: old(self)@.open + 1, ..old(self)@ }
            } else {
                old(self)@
            }),
    {
        if self.open < self.limit {
            self.open = self.open + 1;
            true
        } else {
            false
        }
    }

    /// Finds a connection for a request: an idle one, a new one within the
    /// bound, or none yet.
    pub fn acquire(&mut self) -> (r: PoolStep<C>)
        requires
            old(self)@.wf(),
        ensures
            final(self)@.wf(),
            r == old(self)@.step(),
            final(self)@ == old(self)@.stepped(),
    {
        match self.get_connection() {
            Some(connection) => PoolStep::Use(connection),
            None => if self.open_connection() {
                PoolStep::Open
            } else {
                PoolStep::Wait
            },
        }
    }

    /// Counts a connection that is in use as closed.
    pub fn close_connection(&mut self)
        requires
            old(self)@.wf(),
            old(self)@.idle.len() < old(self)@.open,
        ensures
            final(self)@.wf(),
            final(self)@ == old(self)@.closed(),
    {
        self.open = self.open - 1;
    }

    /// Keeps a connection that was in use for the next request.
    pub fn return_connection(&mut self, connection: C)
        requires
            old(self)@.wf(),
            old(self)@.idle.len() < old(self)@.open,
        ensures
            final(self)@.wf(),
            final(self)@ == old(self)@.returned(connection),
    {
        self.idle.push(connection);
    }
}

/// How far a request has come.
#[derive(Clone, Copy, Debug, PartialEq, Eq, Structural)]
pub enum SendPhase {
    /// It waits for a connection.
    Acquiring,
    /// It is exchanged for a response.
    Exchanging,
    /// The exchange failed, and the connection is made anew.
    Reconnecting,
    /// It is exchanged for a response a second time.
    Retrying,
}

/// A request on its way.
#[derive(Debug)]
pub struct PendingSend {
    payload: Vec<u8>,
    request_id: u16,
    phase: SendPhase,
    guard: GaugeGuard,
}

/// The view of [`PendingSend`].
#[verifier::ext_equal]
pub struct PendingView {
    pub payload: Seq<u8>,
    pub request_id: u16,
    pub phase: SendPhase,
}

impl View for PendingSend {
    type V = PendingView;

    closed spec fn view(&self) -> PendingView {
        PendingView {
            payload: self.payload@,
            request_id: self.request_id,
            phase: self.phase,
        }
    }
}

impl PendingView {
    /// The request in another phase.
    pub open spec fn in_phase(self, phase: SendPhase) -> PendingView {
        PendingView { phase, ..self }
    }
}

impl PendingSend {
    /// The request may be forwarded, and it is counted as in flight.
    pub closed spec fn wf(self, network: Seq<char>) -> bool {
        &&& self.payload@.len() <= MAX_MESSAGE_SIZE_BYTES
        &&& self.guard.kind() == GaugeKind::BinaryInflight
        &&& self.guard.network() == network
    }

    /// The request.
    pub fn payload(&self) -> (r: &[u8])
        ensures
            r@ == self@.payload,
    {
        self.payload.as_slice()
    }

    /// The identifier that the client gave the request.
    pub fn request_id(&self) -> (r: u16)
        ensures
            r == self@.request_id,
    {
        self.request_id
    }

    /// Gives a request up before it has an outcome.
    pub fn abandon(self, metrics: &mut AppMetrics, network: &str)
        requires
            old(metrics).wf(),
            self.wf(network@),
        ensures
            final(metrics).wf(),
            final(metrics).families() == old(metrics).families(),
            final(metrics)@ == old(metrics)@.gauge_lowered(GaugeKind::BinaryInflight, network@),
    {
        metrics.release(self.guard);
    }
}

/// What is to be done for a request.
pub enum SendAction {
    /// Take a connection from the pool.
    Acquire(PendingSend),
    /// Send the request and await the response.
    Exchange(PendingSend),
    /// Make the connection anew.
    Reconnect(PendingSend),
    /// Answer the client, and keep the connection or let it go.
    Finish { reply: Result<Vec<u8>, BinaryError>, keep_connection: bool },
}

/// The view of [`SendAction`].
#[verifier::ext_equal]
pub enum ActionView {
    Acquire(PendingView),
    Exchange(PendingView),
    Reconnect(PendingView),
    Finish { reply: Result<Seq<u8>, BinaryErrorView>, keep_connection: bool },
}

impl View for SendAction {
    type V = ActionView;

    open spec fn view(&self) -> ActionView {
        match self {
            SendAction::Acquire(pending) => ActionView::Acquire(pending@),
            SendAction::Exchange(pending) => ActionView::Exchange(pending@),
            SendAction::Reconnect(pending) => ActionView::Reconnect(pending@),
            SendAction::Finish { reply, keep_connection } => ActionView::Finish {
                reply: reply_view(*reply),
                keep_connection: *keep_connection,
            },
        }
    }
}

impl SendAction {
    /// A request that is still on its way is well-formed.
    pub open spec fn wf(self, network: Seq<char>) -> bool {
        match self {
            SendAction::Acquire(pending) => pending.wf(network),
            SendAction::Exchange(pending) => pending.wf(network),
            SendAction::Reconnect(pending) => pending.wf(network),
            SendAction::Finish { .. } => true,
        }
    }
}

/// What became of an action.
pub enum SendEvent {
    /// A connection was had, or not, after some time.
    Acquired { waited: Duration, outcome: Result<(), BinaryError> },
    /// The response came, or did not.
    Exchanged(Result<Vec<u8>, BinaryError>),
    /// The connection was made anew, or not.
    Reconnected(Result<(), BinaryError>),
}

/// The view of [`SendEvent`].
pub enum SendEventView {
    Acquired(Duration, Option<BinaryErrorView>),
    Exchanged(Result<Seq<u8>, BinaryErrorView>),
    Reconnected(Option<BinaryErrorView>),
}

/// The failure of a result.
pub open spec fn failure(outcome: Result<(), BinaryError>) -> Option<BinaryErrorView> {
    match outcome {
        Ok(()) => None,
        Err(err) => Some(err@),
    }
}

impl View for SendEvent {
    type V = SendEventView;

    open spec fn view(&self) -> SendEventView {
        match self {
            SendEvent::Acquired { waited, outcome } => SendEventView::Acquired(
                *waited,
                failure(*outcome),
            ),
            SendEvent::Exchanged(result) => SendEventView::Exchanged(reply_view(*result)),
            SendEvent::Reconnected(outcome) => SendEventView::Reconnected(failure(*outcome)),
        }
    }
}

/// Whether an event is one that the phase waits for.
pub open spec fn awaits(phase: SendPhase, event: SendEventView) -> bool {
    match phase {
        SendPhase::Acquiring => event is Acquired,
        SendPhase::Exchanging => event is Exchanged,
        SendPhase::Reconnecting => event is Reconnected,
        SendPhase::Retrying => event is Exchanged,
    }
}

/// The answer without a connection.
pub open spec fn finished(reply: Result<Seq<u8>, BinaryErrorView>) -> ActionView {
    ActionView::Finish { reply, keep_connection: false }
}

/// What is done first for a request.
pub open spec fn first_action(payload: Seq<u8>) -> ActionView {
    match request::parsed_request(payload) {
        Err(err) => finished(refusal(err.code(), payload)),
        Ok(parsed) => if payload.len() > MAX_MESSAGE_SIZE_BYTES {
            finished(
                Err(
                    BinaryErrorView::RequestTooLarge {
                        allowed: MAX_MESSAGE_SIZE_BYTES,
                        got: payload.len() as usize,
                    },
                ),
            )
        } else if parsed.information_request == Some(InformationRequest::Peers) {
            finished(refusal(ErrorCode::FunctionDisabled, payload))
        } else {
            ActionView::Acquire(
                PendingView {
                    payload,
                    request_id: parsed.header.id,
                    phase: SendPhase::Acquiring,
                },
            )
        },
    }
}

/// The answer to a client after the last exchange.
pub open spec fn answered(
    payload: Seq<u8>,
    result: Result<Seq<u8>, BinaryErrorView>,
) -> ActionView {
    match result {
        Ok(response) => ActionView::Finish {
            reply: Ok(upstream_reply(payload, response)),
            keep_connection: true,
        },
        Err(err) => finished(Err(err)),
    }
}

/// What is done next for a request.
pub open spec fn next_action(pending: PendingView, event: SendEventView) -> ActionView {
    match event {
        SendEventView::Acquired(_, None) => ActionView::Exchange(
            pending.in_phase(SendPhase::Exchanging),
        ),
        SendEventView::Acquired(_, Some(err)) => finished(Err(err)),
        SendEventView::Exchanged(result) => if pending.phase is Exchanging && retryable(result) {
            ActionView::Reconnect(pending.in_phase(SendPhase::Reconnecting))
        } else {
            answered(pending.payload, result)
        },
        SendEventView::Reconnected(None) => ActionView::Exchange(
            pending.in_phase(SendPhase::Retrying),
        ),
        SendEventView::Reconnected(Some(err)) => finished(Err(err)),
    }
}

/// The metrics after a request was answered.
pub open spec fn settled(
    metrics: MetricsView,
    network: Seq<char>,
    outcome: Seq<char>,
) -> MetricsView {
    metrics.binary_response_counted(network, outcome).gauge_lowered(
        GaugeKind::BinaryInflight,
        network,
    )
}

/// The metrics after the first action.
pub open spec fn first_metrics(
    metrics: MetricsView,
    network: Seq<char>,
    payload: Seq<u8>,
) -> MetricsView {
    let counted = metrics.gauge_raised(GaugeKind::BinaryInflight, network);
    if first_action(payload) is Finish {
        settled(counted, network, "error"@)
    } else {
        counted
    }
}

/// The metrics after the next action.
pub open spec fn next_metrics(
    metrics: MetricsView,
    network: Seq<char>,
    pending: PendingView,
    event: SendEventView,
) -> MetricsView {
    let timed = match event {
        SendEventView::Acquired(waited, _) => metrics.binary_queue_timed(network, waited),
        _ => metrics,
    };
    match next_action(pending, event) {
        ActionView::Finish { keep_connection, .. } => settled(
            timed,
            network,
            if keep_connection {
                "ok"@
            } else {
                "error"@
            },
        ),
        _ => timed,
    }
}

/// Counts the outcome of a request and ends its time in flight.
fn settle(metrics: &mut AppMetrics, network: &str, guard: GaugeGuard, outcome: &str)
    requires
        old(metrics).wf(),
        guard.kind() == GaugeKind::BinaryInflight,
        guard.network() == network@,
    ensures
        final(metrics).wf(),
        final(metrics).families() == old(metrics).families(),
        final(metrics)@ == settled(old(metrics)@, network@, outcome@),
{
    metrics.increment_binary_response(network, outcome);
    metrics.release(guard);
}

impl<C> BinaryPool<C> {
    /// Takes a request of a client. It is refused, or a connection is asked
    /// for.
    pub fn send(&self, metrics: &mut AppMetrics, payload: Vec<u8>) -> (r: SendAction)
        requires
            old(metrics).wf(),
        ensures
            final(metrics).wf(),
            final(metrics).families() == old(metrics).families(),
            final(metrics)@ == first_metrics(old(metrics)@, self@.network, payload@),
            r@ == first_action(payload@),
            r.wf(self@.network),
            request::asks_for_peers(payload@) ==> r@ == finished(
                Ok(error_reply(ErrorCode::FunctionDisabled, payload@)),
            ),
            r@ is Acquire <==> request::parsed_request(payload@) is Ok && payload@.len()
                <= MAX_MESSAGE_SIZE_BYTES && !request::asks_for_peers(payload@),
    {
        let network = self.network.as_str();
        let guard = metrics.binary_inflight_guard(network);
        let parsed_request = match parse_request(payload.as_slice()) {
            Ok(parsed) => parsed,
            Err(err) => {
                settle(metrics, network, guard, "error");
                let reply = build_error_response(err.error_code(), payload.as_slice());
                return SendAction::Finish { reply, keep_connection: false };
            },
        };
        if payload.len() > MAX_MESSAGE_SIZE_BYTES {
            settle(metrics, network, guard, "error");
            let reply = Err(
                BinaryError::RequestTooLarge {
                    allowed: MAX_MESSAGE_SIZE_BYTES,
                    got: payload.len(),
                },
            );
            return SendAction::Finish { reply, keep_connection: false };
        }
        if let Some(InformationRequest::Peers) = parsed_request.information_request {
            settle(metrics, network, guard, "error");
            let reply = build_error_response(ErrorCode::FunctionDisabled, payload.as_slice());
            return SendAction::Finish { reply, keep_connection: false };
        }
        SendAction::Acquire(
            PendingSend {
                payload,
                request_id: parsed_request.header.id,
                phase: SendPhase::Acquiring,
                guard,
            },
        )
    }

    /// Goes on with a request after something happened to it.
    pub fn proceed(&self, metrics: &mut AppMetrics, pending: PendingSend, event: SendEvent) -> (r:
        SendAction)
        requires
            old(metrics).wf(),
            pending.wf(self@.network),
            awaits(pending@.phase, event@),
        ensures
            final(metrics).wf(),
            final(metrics).families() == old(metrics).families(),
            final(metrics)@ == next_metrics(old(metrics)@, self@.network, pending@, event@),
            r@ == next_action(pending@, event@),
            r.wf(self@.network),
            event matches SendEvent::Exchanged(Ok(response)) ==> response::hides_peers(response@),
    {
        match event {
            SendEvent::Acquired { waited, outcome } => {
                metrics.observe_binary_queue_wait(self.network.as_str(), waited);
                match outcome {
                    Ok(()) => SendAction::Exchange(
                        PendingSend { phase: SendPhase::Exchanging, ..pending },
                    ),
                    Err(err) => self.fail(metrics, pending, err),
                }
            },
            SendEvent::Exchanged(result) => {
                let first = match pending.phase {
                    SendPhase::Exchanging => true,
                    _ => false,
                };
                if first && is_retryable_io_error(&result) {
                    return SendAction::Reconnect(
                        PendingSend { phase: SendPhase::Reconnecting, ..pending },
                    );
                }
                match result {
                    Ok(response) => {
                        let reply = answer(pending.payload.as_slice(), response.as_slice());
                        settle(metrics, self.network.as_str(), pending.guard, "ok");
                        SendAction::Finish { reply: Ok(reply), keep_connection: true }
                    },
                    Err(err) => self.fail(metrics, pending, err),
                }
            },
            SendEvent::Reconnected(outcome) => match outcome {
                Ok(()) => SendAction::Exchange(
                    PendingSend { phase: SendPhase::Retrying, ..pending },
                ),
                Err(err) => self.fail(metrics, pending, err),
            },
        }
    }

    /// Ends a request with an error.
    fn fail(&self, metrics: &mut AppMetrics, pending: PendingSend, err: BinaryError) -> (r:
        SendAction)
        requires
            old(metrics).wf(),
            pending.wf(self@.network),
        ensures
            final(metrics).wf(),
            final(metrics).families() == old(metrics).families(),
            final(metrics)@ == settled(old(metrics)@, self@.network, "error"@),
            r@ == finished(Err(err@)),
    {
        settle(metrics, self.network.as_str(), pending.guard, "error");
        SendAction::Finish { reply: Err(err), keep_connection: false }
    }
}

/// The answer to a client whose request the upstream answered.
fn answer(request: &[u8], response: &[u8]) -> (r: Vec<u8>)
    requires
        request@.len() <= MAX_MESSAGE_SIZE_BYTES,
    ensures
        r@ == upstream_reply(request@, response@),
        response::hides_peers(response@),
{
    match rewrite_response_bytes(response) {
        Ok(bytes) => bytes,
        Err(err) => match build_error_response(err.error_code(), request) {
            Ok(bytes) => bytes,
            Err(_) => {
                // Not reached: a request that was forwarded is short enough.
                assert(error_reply(err.code(), request@).len() == request@.len() + 13);
                assert(false);
                Vec::new()
            },
        },
    }
}

/// The request of an action that waits for an event.
pub open spec fn pending_of(action: ActionView) -> Option<PendingView> {
    match action {
        ActionView::Acquire(pending) => Some(pending),
        ActionView::Exchange(pending) => Some(pending),
        ActionView::Reconnect(pending) => Some(pending),
        ActionView::Finish { .. } => None,
    }
}

/// How many more exchanges a request can still take part in.
pub open spec fn exchanges_left(action: ActionView) -> nat {
    match pending_of(action) {
        None => 0,
        Some(pending) => match pending.phase {
            SendPhase::Acquiring => 2,
            SendPhase::Exchanging => 2,
            SendPhase::Reconnecting => 1,
            SendPhase::Retrying => 1,
        },
    }
}

/// How many exchanges happen in a run.
pub open spec fn exchanges(events: Seq<SendEventView>) -> nat
    decreases events.len(),
{
    if events.len() == 0 {
        0
    } else {
        (if events.first() is Exchanged {
            1nat
        } else {
            0nat
        }) + exchanges(events.drop_first())
    }
}

/// Whether a run goes on to its last event.
pub open spec fn runs_through(action: ActionView, events: Seq<SendEventView>) -> bool
    decreases events.len(),
{
    events.len() > 0 ==> (match pending_of(action) {
        None => false,
        Some(pending) => awaits(pending.phase, events.first()) && runs_through(
            next_action(pending, events.first()),
            events.drop_first(),
        ),
    })
}

proof fn lemma_exchanges_left(action: ActionView, events: Seq<SendEventView>)
    requires
        runs_through(action, events),
    ensures
        exchanges(events) <= exchanges_left(action),
    decreases events.len(),
{
    if events.len() > 0 {
        let pending = pending_of(action)->0;
        lemma_exchanges_left(next_action(pending, events.first()), events.drop_first());
    }
}

/// A request is sent to the upstream at most twice.
pub proof fn law_at_most_one_retry(payload: Seq<u8>, events: Seq<SendEventView>)
    requires
        runs_through(first_action(payload), events),
    ensures
        exchanges(events) <= 2,
{
    lemma_exchanges_left(first_action(payload), events);
}

/// Every request is answered after at most four events, and no event is
/// awaited after the answer.
pub proof fn law_every_request_is_answered(payload: Seq<u8>, events: Seq<SendEventView>)
    requires
        runs_through(first_action(payload), events),
    ensures
        events.len() <= 4,
        events.len() == 4 ==> pending_of(final_action(first_action(payload), events)) is None,
{
    reveal_with_fuel(runs_through, 6);
    reveal_with_fuel(final_action, 6);
}

/// The action after the events of a run.
pub open spec fn final_action(action: ActionView, events: Seq<SendEventView>) -> ActionView
    decreases events.len(),
{
    if events.len() == 0 {
        action
    } else {
        match pending_of(action) {
            None => action,
            Some(pending) => final_action(
                next_action(pending, events.first()),
                events.drop_first(),
            ),
        }
    }
}

/// The metrics after the events of a run.
pub open spec fn run_metrics(
    metrics: MetricsView,
    network: Seq<char>,
    action: ActionView,
    events: Seq<SendEventView>,
) -> MetricsView
    decreases events.len(),
{
    if events.len() == 0 {
        metrics
    } else {
        match pending_of(action) {
            None => metrics,
            Some(pending) => run_metrics(
                next_metrics(metrics, network, pending, events.first()),
                network,
                next_action(pending, events.first()),
                events.drop_first(),
            ),
        }
    }
}

proof fn lemma_run_metrics(
    metrics: MetricsView,
    network: Seq<char>,
    action: ActionView,
    events: Seq<SendEventView>,
)
    ensures
        pending_of(action) is None ==> run_metrics(metrics, network, action, events) == metrics,
        pending_of(final_action(action, events)) is Some ==> run_metrics(
            metrics,
            network,
            action,
            events,
        ).binary_responses_total == metrics.binary_responses_total && run_metrics(
            metrics,
            network,
            action,
            events,
        ).binary_inflight_requests == metrics.binary_inflight_requests,
        pending_of(action) is Some && pending_of(final_action(action, events)) is None
            ==> run_metrics(metrics, network, action, events).binary_responses_total
            == metrics.binary_response_counted(
            network,
            outcome_of(final_action(action, events)),
        ).binary_responses_total && run_metrics(
            metrics,
            network,
            action,
            events,
        ).binary_inflight_requests == metrics.gauge_lowered(
            GaugeKind::BinaryInflight,
            network,
        ).binary_inflight_requests,
    decreases events.len(),
{
    if events.len() > 0 && pending_of(action) is Some {
        let pending = pending_of(action)->0;
        lemma_run_metrics(
            next_metrics(metrics, network, pending, events.first()),
            network,
            next_action(pending, events.first()),
            events.drop_first(),
        );
    }
}

/// The outcome under which an answer is counted.
pub open spec fn outcome_of(action: ActionView) -> Seq<char> {
    if action matches ActionView::Finish { keep_connection, .. } && keep_connection {
        "ok"@
    } else {
        "error"@
    }
}

/// A request that was answered is counted once, under one outcome, and is no
/// longer counted as in flight. One that is still on its way is counted under
/// no outcome.
pub proof fn law_one_outcome_per_request(
    metrics: MetricsView,
    network: Seq<char>,
    payload: Seq<u8>,
    events: Seq<SendEventView>,
)
    ensures
        ({
            let start = first_metrics(metrics, network, payload);
            let end = run_metrics(start, network, first_action(payload), events);
            let last = final_action(first_action(payload), events);
            if pending_of(last) is Some {
                &&& end.binary_responses_total == metrics.binary_responses_total
                &&& end.gauge(GaugeKind::BinaryInflight, network) == metrics.gauge_raised(
                    GaugeKind::BinaryInflight,
                    network,
                ).gauge(GaugeKind::BinaryInflight, network)
            } else {
                &&& end.binary_responses_total == metrics.binary_response_counted(
                    network,
                    outcome_of(last),
                ).binary_responses_total
                &&& end.gauge(GaugeKind::BinaryInflight, network) == metrics.gauge(
                    GaugeKind::BinaryInflight,
                    network,
                )
            }
        }),
{
    let start = first_metrics(metrics, network, payload);
    lemma_run_metrics(start, network, first_action(payload), events);
}

/// Every refusal carries the request that it answers, byte for byte, and the
/// error code; a client can read both back.
pub proof fn law_refusals_can_be_read_back(code: ErrorCode, request: Seq<u8>)
    requires
        wire::fits(request.len()),
    ensures
        response::parsed_envelope(error_reply(code, request)) == Some(
            EnvelopeView::WithRequest { request, response: wire::error_fields(code) },
        ),
{
    response::lemma_parsed(
        error_reply(code, request),
        EnvelopeView::WithRequest { request, response: wire::error_fields(code) },
    );
}

/// A request that is forwarded is forwarded as it came.
pub proof fn law_requests_pass_unchanged(payload: Seq<u8>, events: Seq<SendEventView>)
    ensures
        pending_of(final_action(first_action(payload), events)) matches Some(pending)
            ==> pending.payload == payload,
{
    lemma_payload_kept(first_action(payload), events);
}

proof fn lemma_payload_kept(action: ActionView, events: Seq<SendEventView>)
    ensures
        pending_of(final_action(action, events)) matches Some(pending) ==> pending_of(
            action,
        ) matches Some(start) && pending.payload == start.payload,
    decreases events.len(),
{
    if events.len() > 0 && pending_of(action) is Some {
        let pending = pending_of(action)->0;
        lemma_payload_kept(next_action(pending, events.first()), events.drop_first());
    }
}

/// A response of the proxy that names an error and nothing else, to a request.
pub open spec fn answers_with(reply: Seq<u8>, request: Seq<u8>, error_code: u16) -> bool {
    response::parsed_envelope(reply) == Some(
        EnvelopeView::WithRequest {
            request,
            response: wire::ResponseFields {
                version: 1,
                error_code,
                type_tag: None,
                payload: Seq::empty(),
            },
        },
    )
}

/// Every request that is understood, is not too long and does not ask for peers
/// is forwarded, as it came and under its own identifier.
pub proof fn law_understood_requests_are_forwarded(payload: Seq<u8>)
    requires
        request::parsed_request(payload) is Ok,
        payload.len() <= MAX_MESSAGE_SIZE_BYTES,
        !request::asks_for_peers(payload),
    ensures
        first_action(payload) == ActionView::Acquire(
            PendingView {
                payload,
                request_id: (payload[3] + 256 * payload[4]) as u16,
                phase: SendPhase::Acquiring,
            },
        ),
{
    request::law_peers_are_recognized(payload);
}

/// Every other request is answered at once, and no connection is kept for it: a
/// request for peers with code 1, one of another version with code 9, any other
/// that is not understood with code 8, and one that is too long with how long it
/// may be.
pub proof fn law_other_requests_are_refused(payload: Seq<u8>)
    requires
        payload.len() + 13 <= u32::MAX,
    ensures
        ({
            let parsed = request::parsed_request(payload);
            let action = first_action(payload);
            let reply = action->reply;
            &&& parsed is Ok && payload.len() > 4194304 ==> action == (ActionView::Finish {
                reply: Err(
                    BinaryErrorView::RequestTooLarge {
                        allowed: 4194304,
                        got: payload.len() as usize,
                    },
                ),
                keep_connection: false,
            })
            &&& parsed is Ok && payload.len() <= 4194304 && request::asks_for_peers(payload)
                ==> action is Finish && !action->keep_connection && reply is Ok && answers_with(
                reply->Ok_0,
                payload,
                1,
            )
            &&& parsed == Err::<request::ParsedRequest, request::RequestParseError>(
                request::RequestParseError::UnsupportedVersion,
            ) ==> action is Finish && !action->keep_connection && reply is Ok && answers_with(
                reply->Ok_0,
                payload,
                9,
            )
            &&& parsed == Err::<request::ParsedRequest, request::RequestParseError>(
                request::RequestParseError::InvalidRequest,
            ) ==> action is Finish && !action->keep_connection && reply is Ok && answers_with(
                reply->Ok_0,
                payload,
                8,
            )
        }),
{
    if request::parsed_request(payload) is Ok {
        request::law_peers_are_recognized(payload);
    }
    law_refusals_can_be_read_back(ErrorCode::FunctionDisabled, payload);
    law_refusals_can_be_read_back(ErrorCode::UnsupportedRequest, payload);
    law_refusals_can_be_read_back(ErrorCode::BadRequest, payload);
    assert(error_reply(ErrorCode::FunctionDisabled, payload).len() == payload.len() + 13);
    assert(error_reply(ErrorCode::UnsupportedRequest, payload).len() == payload.len() + 13);
    assert(error_reply(ErrorCode::BadRequest, payload).len() == payload.len() + 13);
}

/// What the client gets for a response of the upstream: the response as it was
/// rewritten, or an error to its own request, with code 9 where the type of the
/// payload is unknown and code 6 otherwise.
pub proof fn law_unrewritten_responses_are_errors(request: Seq<u8>, response: Seq<u8>)
    requires
        wire::fits(request.len()),
    ensures
        match response::rewritten(response) {
            Ok(bytes) => upstream_reply(request, response) == bytes,
            Err(response::ResponseRewriteError::UnknownTypeTag(_)) => answers_with(
                upstream_reply(request, response),
                request,
                9,
            ),
            Err(_) => answers_with(upstream_reply(request, response), request, 6),
        },
{
    law_refusals_can_be_read_back(ErrorCode::UnsupportedRequest, request);
    law_refusals_can_be_read_back(ErrorCode::InternalError, request);
}

/// Whether an error says that the connection was lost: it ended early, was
/// reset, was aborted or broke.
pub open spec fn is_lost(err: BinaryErrorView) -> bool {
    err matches BinaryErrorView::Io { kind, .. } && !(kind is Other)
}

/// What comes of a request that is forwarded, whatever the upstream does. The
/// first response that comes is the answer, also where it came over a connection
/// that was made anew after the first one was lost; an error is the answer
/// otherwise, and only after a response is the connection kept.
pub proof fn law_what_comes_of_a_forwarded_request(
    payload: Seq<u8>,
    waited: Duration,
    response: Seq<u8>,
    first: BinaryErrorView,
    second: BinaryErrorView,
)
    requires
        first_action(payload) is Acquire,
    ensures
        ({
            let had = SendEventView::Acquired(waited, None);
            let answered = ActionView::Finish {
                reply: Ok(upstream_reply(payload, response)),
                keep_connection: true,
            };
            let failed = |err: BinaryErrorView|
                ActionView::Finish { reply: Err(err), keep_connection: false };
            let after = |events: Seq<SendEventView>| final_action(first_action(payload), events);
            let lost = SendEventView::Exchanged(Err(first));
            let anew = SendEventView::Reconnected(None);
            &&& after(seq![SendEventView::Acquired(waited, Some(first))]) == failed(first)
            &&& after(seq![had, SendEventView::Exchanged(Ok(response))]) == answered
            &&& !is_lost(first) ==> after(seq![had, lost]) == failed(first)
            &&& is_lost(first) ==> {
                &&& after(seq![had, lost, SendEventView::Reconnected(Some(second))]) == failed(
                    second,
                )
                &&& after(seq![had, lost, anew, SendEventView::Exchanged(Ok(response))])
                    == answered
                &&& after(seq![had, lost, anew, SendEventView::Exchanged(Err(second))])
                    == failed(second)
            }
        }),
{
    let start = first_action(payload);
    let had = SendEventView::Acquired(waited, None);
    let lost = SendEventView::Exchanged(Err(first));
    let anew = SendEventView::Reconnected(None);
    reveal_with_fuel(final_action, 5);
    lemma_run_of_one(start, SendEventView::Acquired(waited, Some(first)));
    lemma_run_of_two(start, had, SendEventView::Exchanged(Ok(response)));
    lemma_run_of_two(start, had, lost);
    lemma_run_of_three(start, had, lost, SendEventView::Reconnected(Some(second)));
    lemma_run_of_four(start, had, lost, anew, SendEventView::Exchanged(Ok(response)));
    lemma_run_of_four(start, had, lost, anew, SendEventView::Exchanged(Err(second)));
}

/// The action after one event.
pub open spec fn step_of(action: ActionView, event: SendEventView) -> ActionView {
    match pending_of(action) {
        None => action,
        Some(pending) => next_action(pending, event),
    }
}

proof fn lemma_run_of_one(action: ActionView, a: SendEventView)
    ensures
        final_action(action, seq![a]) == step_of(action, a),
{
    reveal_with_fuel(final_action, 2);
    assert(seq![a].drop_first() =~= Seq::empty());
}

proof fn lemma_run_of_two(action: ActionView, a: SendEventView, b: SendEventView)
    ensures
        final_action(action, seq![a, b]) == step_of(step_of(action, a), b),
{
    lemma_run_of_one(step_of(action, a), b);
    assert(seq![a, b].drop_first() =~= seq![b]);
}

proof fn lemma_run_of_three(
    action: ActionView,
    a: SendEventView,
    b: SendEventView,
    c: SendEventView,
)
    ensures
        final_action(action, seq![a, b, c]) == step_of(step_of(step_of(action, a), b), c),
{
    lemma_run_of_two(step_of(action, a), b, c);
    assert(seq![a, b, c].drop_first() =~= seq![b, c]);
}

proof fn lemma_run_of_four(
    action: ActionView,
    a: SendEventView,
    b: SendEventView,
    c: SendEventView,
    d: SendEventView,
)
    ensures
        final_action(action, seq![a, b, c, d]) == step_of(
            step_of(step_of(step_of(action, a), b), c),
            d,
        ),
{
    lemma_run_of_three(step_of(action, a), b, c, d);
    assert(seq![a, b, c, d].drop_first() =~= seq![b, c, d]);
}

/// Idle connections are used before new ones are opened, the one that came back
/// last first; a connection is opened only within the bound, and what the pool
/// serves and how many connections it allows never changes.
pub proof fn law_idle_connections_go_first<C>(pool: PoolView<C>, connection: C)
    requires
        pool.wf(),
    ensures
        pool.returned(connection).step() == PoolStep::Use(connection),
        pool.returned(connection).stepped() == pool,
        pool.idle.len() > 0 ==> pool.step() == PoolStep::Use(pool.idle.last())
            && pool.stepped().open == pool.open && pool.stepped().idle.push(pool.idle.last())
            == pool.idle,
        pool.idle.len() == 0 && pool.open < pool.limit ==> pool.step() is Open
            && pool.stepped().open == pool.open + 1 && pool.stepped().idle == pool.idle,
        pool.stepped().network == pool.network,
        pool.stepped().address == pool.address,
        pool.stepped().limit == pool.limit,
        pool.returned(connection).open == pool.open,
        pool.closed().idle == pool.idle,
{
    assert(pool.returned(connection).idle.drop_last() =~= pool.idle);
    if pool.idle.len() > 0 {
        assert(pool.idle.drop_last().push(pool.idle.last()) =~= pool.idle);
    }
}

/// Every error has a text that says what went wrong, with the message that came
/// with it or how long the request was and may be.
pub proof fn law_error_texts(kind: IoErrorKind, message: Seq<char>, allowed: usize, got: usize)
    ensures
        (BinaryErrorView::Io { kind, message }).text() == "io error: "@ + message,
        BinaryErrorView::ChannelClosed.text() == "channel closed"@,
        BinaryErrorView::ConnectionUnavailable.text() == "connection unavailable"@,
        (BinaryErrorView::RequestTooLarge { allowed, got }).text() == "request too large (allowed "@
            + text::decimal(allowed as nat) + ", got "@ + text::decimal(got as nat) + ")"@,
        BinaryErrorView::ResponseEncoding(message).text() == "response encoding error: "@
            + message,
{
}

/// A request is in flight from when it is taken until it is answered. Each
/// request that is answered at once is counted as an error; each that goes on is
/// counted when it is answered, as a success exactly where a response came. How
/// long a connection was waited for is timed whether or not one was had.
pub proof fn law_how_requests_are_counted(
    metrics: MetricsView,
    network: Seq<char>,
    payload: Seq<u8>,
    pending: PendingView,
    waited: Duration,
    failed: Option<BinaryErrorView>,
    result: Result<Seq<u8>, BinaryErrorView>,
)
    ensures
        ({
            let raised = metrics.gauge_raised(GaugeKind::BinaryInflight, network);
            let done = |before: MetricsView, outcome: Seq<char>|
                before.binary_response_counted(network, outcome).gauge_lowered(
                    GaugeKind::BinaryInflight,
                    network,
                );
            let timed = metrics.binary_queue_timed(network, waited);
            let after = |event: SendEventView| next_metrics(metrics, network, pending, event);
            &&& first_action(payload) is Acquire ==> first_metrics(metrics, network, payload)
                == raised
            &&& !(first_action(payload) is Acquire) ==> first_metrics(metrics, network, payload)
                == done(raised, "error"@)
            &&& after(SendEventView::Acquired(waited, failed)) == if failed is Some {
                done(timed, "error"@)
            } else {
                timed
            }
            &&& after(SendEventView::Reconnected(failed)) == if failed is Some {
                done(metrics, "error"@)
            } else {
                metrics
            }
            &&& result is Ok ==> after(SendEventView::Exchanged(result)) == done(metrics, "ok"@)
            &&& result is Err && !(pending.phase is Exchanging && is_lost(result->Err_0)) ==> after(
                SendEventView::Exchanged(result),
            ) == done(metrics, "error"@)
            &&& result is Err && pending.phase is Exchanging && is_lost(result->Err_0) ==> after(
                SendEventView::Exchanged(result),
            ) == metrics
        }),
{
}

/// A request awaits a connection first, then a response, and where the
/// connection was lost a new one and then a response again.
pub proof fn law_what_requests_await(
    phase: SendPhase,
    waited: Duration,
    failed: Option<BinaryErrorView>,
    result: Result<Seq<u8>, BinaryErrorView>,
)
    ensures
        phase is Acquiring <==> awaits(phase, SendEventView::Acquired(waited, failed)),
        phase is Exchanging || phase is Retrying <==> awaits(
            phase,
            SendEventView::Exchanged(result),
        ),
        phase is Reconnecting <==> awaits(phase, SendEventView::Reconnected(failed)),
{
}

/// Every refusal can be built while it fits the length limit, whatever the code
/// and the request, and the client reads back its request and the code. One that
/// does not fit is an error.
pub proof fn law_every_refusal_is_an_answer(code: ErrorCode, request: Seq<u8>)
    ensures
        request.len() + 13 <= u32::MAX ==> refusal(code, request) is Ok && answers_with(
            refusal(code, request)->Ok_0,
            request,
            match code {
                ErrorCode::FunctionDisabled => 1,
                ErrorCode::InternalError => 6,
                ErrorCode::BadRequest => 8,
                ErrorCode::UnsupportedRequest => 9,
            },
        ),
        request.len() + 13 > u32::MAX ==> refusal(code, request) == Err::<
            Seq<u8>,
            BinaryErrorView,
        >(BinaryErrorView::ResponseEncoding("Serialization error: out of memory"@)),
{
    assert(error_reply(code, request).len() == request.len() + 13);
    if request.len() + 13 <= u32::MAX {
        law_refusals_can_be_read_back(code, request);
    }
}

/// Only a lost connection is worth another try: a response is not tried again,
/// and neither is any other error.
pub proof fn law_only_lost_connections_are_tried_again(
    response: Seq<u8>,
    err: BinaryErrorView,
    kind: IoErrorKind,
    message: Seq<char>,
)
    ensures
        !retryable(Ok(response)),
        retryable(Err(err)) <==> is_lost(err),
        retryable(Err(BinaryErrorView::Io { kind, message })) <==> kind is UnexpectedEof || kind
            is ConnectionReset || kind is ConnectionAborted || kind is BrokenPipe,
{
}

} // verus!
