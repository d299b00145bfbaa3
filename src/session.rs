//! Connection decisions: which transport errors are retried, the session
//! state machine, the supervisor's restart backoff, the idle check, and the
//! per-receiver loss counter of the fan-out bus.

use vstd::prelude::*;
use crate::json::str_eq;

verus! {

/// The I/O error kinds a WebSocket connect can report.
#[derive(Debug, Clone, Copy, PartialEq, Eq, Structural)]
pub enum IoErrorKind {
    ConnectionRefused,
    ConnectionAborted,
    ConnectionReset,
    NotConnected,
    Other,
}

/// A WebSocket connect error, as far as the retry decision reads it.
#[derive(Debug, Clone, Copy, PartialEq, Eq, Structural)]
pub enum WsErrorKind {
    Io(IoErrorKind),
    /// The upgrade answered with this HTTP status.
    Http(u16),
    Other,
}

/// What to do after a failed connect attempt.
#[derive(Debug, Clone, Copy, PartialEq, Eq, Structural)]
pub enum ConnectStep {
    /// Sleep this long, then attempt again.
    RetryAfterMs(u64),
    GiveUp,
}

/// Opens a subscribed WebSocket: up to five attempts, one second apart.
pub struct WsConnector;

impl WsConnector {
    pub const MAX_RETRIES: usize = 5;
    pub const RETRY_DELAY_MS: u64 = 1000;

    pub open spec fn spec_is_retryable(e: WsErrorKind) -> bool {
        match e {
            WsErrorKind::Io(k) => k != IoErrorKind::Other,
            WsErrorKind::Http(status) => !(200 <= status < 300),
            WsErrorKind::Other => false,
        }
    }

    /// Refused, aborted, reset or not-connected sockets, and non-2xx
    /// upgrade responses, are worth another attempt; nothing else is.
    pub fn is_dns_error(e: &WsErrorKind) -> (r: bool)
        ensures
            r == Self::spec_is_retryable(*e),
    {
        match e {
            WsErrorKind::Io(k) => match k {
                IoErrorKind::Other => false,
                _ => true,
            },
            WsErrorKind::Http(status) => !(200 <= *status && *status < 300),
            WsErrorKind::Other => false,
        }
    }

    /// After attempt `retry` (from zero) failed with `e`: a retryable error
    /// waits a second and tries again while attempts remain.
    pub fn after_failure(retry: usize, e: &WsErrorKind) -> (r: ConnectStep)
        ensures
            r == (if Self::spec_is_retryable(*e) && retry + 1 < Self::MAX_RETRIES {
                ConnectStep::RetryAfterMs(Self::RETRY_DELAY_MS)
            } else {
                ConnectStep::GiveUp
            }),
    {
        if Self::is_dns_error(e) && retry < Self::MAX_RETRIES - 1 {
            ConnectStep::RetryAfterMs(Self::RETRY_DELAY_MS)
        } else {
            ConnectStep::GiveUp
        }
    }
}

/// The exchanges a connection can be built for.
#[derive(Debug, Clone, Copy, PartialEq, Eq, Structural)]
pub enum ExchangeKind {
    Binance,
    Okex,
    Bybit,
}

pub open spec fn spec_exchange_kind(name: Seq<char>) -> Option<ExchangeKind> {
    if name == "binance-futures"@ || name == "binance"@ {
        Some(ExchangeKind::Binance)
    } else if name == "okex-swap"@ || name == "okex"@ {
        Some(ExchangeKind::Okex)
    } else if name == "bybit"@ || name == "bybit-spot"@ {
        Some(ExchangeKind::Bybit)
    } else {
        None
    }
}

/// The exchange family of a configured exchange name.
pub fn exchange_kind(name: &str) -> (r: Option<ExchangeKind>)
    ensures
        r == spec_exchange_kind(name@),
{
    if str_eq(name, "binance-futures") || str_eq(name, "binance") {
        Some(ExchangeKind::Binance)
    } else if str_eq(name, "okex-swap") || str_eq(name, "okex") {
        Some(ExchangeKind::Okex)
    } else if str_eq(name, "bybit") || str_eq(name, "bybit-spot") {
        Some(ExchangeKind::Bybit)
    } else {
        None
    }
}

/// What a session is built from: immutable after start-up.
pub struct ConnectionDescriptor {
    pub exchange: ExchangeKind,
    pub connection_name: String,
    pub url: String,
    /// Sent unchanged as the first text frame after the handshake.
    pub subscribe_payload: String,
}

/// Builds the descriptor of a connection; an unknown exchange is refused.
pub fn construct_connection(
    exchange: &str,
    connection_name: String,
    url: String,
    subscribe_payload: String,
) -> (r: Option<ConnectionDescriptor>)
    ensures
        r is Some <==> spec_exchange_kind(exchange@) is Some,
        r is Some ==> {
            let d = r->Some_0;
            &&& d.exchange == spec_exchange_kind(exchange@)->Some_0
            &&& d.connection_name@ == connection_name@
            &&& d.url@ == url@
            &&& d.subscribe_payload@ == subscribe_payload@
        },
{
    match exchange_kind(exchange) {
        Some(kind) => Some(ConnectionDescriptor { exchange: kind, connection_name, url, subscribe_payload }),
        None => None,
    }
}

// ---------------------------------------------------------------- session

/// Where a session stands; only `Subscribed` forwards payloads.
#[derive(Debug, Clone, Copy, PartialEq, Eq, Structural)]
pub enum SessionState {
    Disconnected,
    Connecting { attempt: usize },
    Subscribed,
    Draining,
    Closed,
}

/// What happened to a session.
#[derive(Debug, Clone, Copy, PartialEq, Eq, Structural)]
pub enum SessionEvent {
    /// The supervisor starts the session.
    Start,
    /// Handshake done and the subscribe payload sent.
    Connected,
    ConnectFailed(WsErrorKind),
    /// A text or binary payload arrived.
    Data,
    Ping,
    Pong,
    /// The peer closed the socket.
    CloseFrame,
    ReadError,
    /// The cooperative shutdown signal was raised.
    Shutdown,
    /// Draining finished (or its one-second budget ran out).
    Drained,
}

/// What the session task does next.
#[derive(Debug, Clone, Copy, PartialEq, Eq, Structural)]
pub enum SessionAction {
    Nothing,
    /// Open the socket and send the subscribe payload.
    Connect,
    /// Sleep this long, then connect again.
    ConnectAfterMs(u64),
    /// Hand the payload to the parser bound to this session.
    Forward,
    SendPong,
    /// Stop reading; give in-flight work at most a second.
    StartDrain,
    /// The connect failed for good; the supervisor restarts the session.
    ReportFailed,
    /// The session is over; the supervisor observes it.
    ReportClosed,
}

pub const DRAIN_BUDGET_MS: u64 = 1000;

pub open spec fn spec_step(state: SessionState, event: SessionEvent) -> (SessionState, SessionAction) {
    match state {
        SessionState::Closed => (SessionState::Closed, SessionAction::Nothing),
        SessionState::Draining => match event {
            SessionEvent::Drained => (SessionState::Closed, SessionAction::ReportClosed),
            _ => (SessionState::Draining, SessionAction::Nothing),
        },
        _ => match event {
            SessionEvent::Shutdown => (SessionState::Draining, SessionAction::StartDrain),
            _ => match state {
                SessionState::Disconnected => match event {
                    SessionEvent::Start => (SessionState::Connecting { attempt: 0 }, SessionAction::Connect),
                    _ => (state, SessionAction::Nothing),
                },
                SessionState::Connecting { attempt } => match event {
                    SessionEvent::Connected => (SessionState::Subscribed, SessionAction::Nothing),
                    SessionEvent::ConnectFailed(e) => {
                        if WsConnector::spec_is_retryable(e) && attempt + 1 < WsConnector::MAX_RETRIES {
                            (
                                SessionState::Connecting { attempt: (attempt + 1) as usize },
                                SessionAction::ConnectAfterMs(WsConnector::RETRY_DELAY_MS),
                            )
                        } else {
                            (SessionState::Disconnected, SessionAction::ReportFailed)
                        }
                    },
                    _ => (state, SessionAction::Nothing),
                },
                _ => match event {
                    SessionEvent::Data => (SessionState::Subscribed, SessionAction::Forward),
                    SessionEvent::Ping => (SessionState::Subscribed, SessionAction::SendPong),
                    SessionEvent::CloseFrame => (SessionState::Draining, SessionAction::StartDrain),
                    SessionEvent::ReadError => (SessionState::Draining, SessionAction::StartDrain),
                    _ => (SessionState::Subscribed, SessionAction::Nothing),
                },
            },
        },
    }
}

/// One transition of the session state machine.
pub fn step(state: SessionState, event: SessionEvent) -> (r: (SessionState, SessionAction))
    ensures
        r == spec_step(state, event),
{
    match state {
        SessionState::Closed => (SessionState::Closed, SessionAction::Nothing),
        SessionState::Draining => match event {
            SessionEvent::Drained => (SessionState::Closed, SessionAction::ReportClosed),
            _ => (SessionState::Draining, SessionAction::Nothing),
        },
        _ => {
            if event == SessionEvent::Shutdown {
                return (SessionState::Draining, SessionAction::StartDrain);
            }
            match state {
                SessionState::Disconnected => match event {
                    SessionEvent::Start => (SessionState::Connecting { attempt: 0 }, SessionAction::Connect),
                    _ => (state, SessionAction::Nothing),
                },
                SessionState::Connecting { attempt } => match event {
                    SessionEvent::Connected => (SessionState::Subscribed, SessionAction::Nothing),
                    SessionEvent::ConnectFailed(e) => {
                        match WsConnector::after_failure(attempt, &e) {
                            ConnectStep::RetryAfterMs(ms) => (
                                SessionState::Connecting { attempt: attempt + 1 },
                                SessionAction::ConnectAfterMs(ms),
                            ),
                            ConnectStep::GiveUp => (SessionState::Disconnected, SessionAction::ReportFailed),
                        }
                    },
                    _ => (state, SessionAction::Nothing),
                },
                _ => match event {
                    SessionEvent::Data => (SessionState::Subscribed, SessionAction::Forward),
                    SessionEvent::Ping => (SessionState::Subscribed, SessionAction::SendPong),
                    SessionEvent::CloseFrame => (SessionState::Draining, SessionAction::StartDrain),
                    SessionEvent::ReadError => (SessionState::Draining, SessionAction::StartDrain),
                    _ => (SessionState::Subscribed, SessionAction::Nothing),
                },
            }
        },
    }
}

/// The actions of a session fed `events` from `state`, in order.
pub open spec fn run_actions(state: SessionState, events: Seq<SessionEvent>) -> Seq<SessionAction>
    decreases events.len(),
{
    if events.len() == 0 {
        seq![]
    } else {
        let (next, action) = spec_step(state, events[0]);
        seq![action] + run_actions(next, events.drop_first())
    }
}

/// Only a subscribed session forwards a payload.
pub proof fn lemma_only_subscribed_forwards(state: SessionState, event: SessionEvent)
    ensures
        spec_step(state, event).1 == SessionAction::Forward ==> state == SessionState::Subscribed,
{
}

/// Once closed, a session stays closed and does nothing, whatever follows.
pub proof fn lemma_closed_is_final(events: Seq<SessionEvent>)
    ensures
        forall|i: int| 0 <= i < events.len() ==> #[trigger] run_actions(SessionState::Closed, events)[i]
            == SessionAction::Nothing,
        run_actions(SessionState::Closed, events).len() == events.len(),
    decreases events.len(),
{
    if events.len() > 0 {
        lemma_closed_is_final(events.drop_first());
        let rest = run_actions(SessionState::Closed, events.drop_first());
        assert(run_actions(SessionState::Closed, events) == seq![SessionAction::Nothing] + rest);
        assert forall|i: int| 0 <= i < events.len() implies #[trigger] run_actions(SessionState::Closed, events)[i]
            == SessionAction::Nothing by {
            if i > 0 {
                assert((seq![SessionAction::Nothing] + rest)[i] == rest[i - 1]);
            }
        }
    }
}

// ---------------------------------------------------------------- supervisor

pub const INITIAL_BACKOFF_MS: u64 = 1000;
pub const MAX_BACKOFF_MS: u64 = 30_000;
/// Subscribed uptime after which the backoff starts over.
pub const BACKOFF_RESET_UPTIME_MS: u64 = 60_000;

/// Exponential restart delay: one second, doubling up to thirty.
pub struct RestartPolicy {
    pub delay_ms: u64,
}

impl RestartPolicy {
    pub open spec fn well_formed(&self) -> bool {
        INITIAL_BACKOFF_MS <= self.delay_ms <= MAX_BACKOFF_MS
    }

    pub fn new() -> (r: Self)
        ensures
            r.well_formed(),
            r.delay_ms == INITIAL_BACKOFF_MS,
    {
        RestartPolicy { delay_ms: INITIAL_BACKOFF_MS }
    }

    /// A session closed after `uptime_ms` of subscribed time: returns how
    /// long to wait before recreating it. Sixty seconds of uptime reset the
    /// delay to one second; each restart doubles the next delay, capped at
    /// thirty seconds.
    pub fn on_session_closed(&mut self, uptime_ms: u64) -> (wait_ms: u64)
        requires
            old(self).well_formed(),
        ensures
            final(self).well_formed(),
            wait_ms == (if uptime_ms >= BACKOFF_RESET_UPTIME_MS { INITIAL_BACKOFF_MS } else { old(self).delay_ms }),
            final(self).delay_ms == (if 2 * wait_ms <= MAX_BACKOFF_MS { 2 * wait_ms } else { MAX_BACKOFF_MS as int }),
            INITIAL_BACKOFF_MS <= wait_ms <= MAX_BACKOFF_MS,
    {
        let wait = if uptime_ms >= BACKOFF_RESET_UPTIME_MS {
            INITIAL_BACKOFF_MS
        } else {
            self.delay_ms
        };
        self.delay_ms = if wait <= MAX_BACKOFF_MS / 2 {
            2 * wait
        } else {
            MAX_BACKOFF_MS
        };
        wait
    }
}

// ---------------------------------------------------------------- idle watchdog

pub const CHECK_INTERVAL_MS: u64 = 30_000;
pub const DEFAULT_IDLE_THRESHOLD_MS: u64 = 120_000;

pub open spec fn spec_is_stalled(now_ms: u64, last_payload_ms: u64, threshold_ms: u64) -> bool {
    now_ms > last_payload_ms && now_ms - last_payload_ms > threshold_ms
}

/// No payload for longer than the threshold.
pub fn is_stalled(now_ms: u64, last_payload_ms: u64, threshold_ms: u64) -> (r: bool)
    ensures
        r == spec_is_stalled(now_ms, last_payload_ms, threshold_ms),
{
    now_ms > last_payload_ms && now_ms - last_payload_ms > threshold_ms
}

/// Indices of the sessions (by last payload time) that should be shut down.
pub open spec fn stalled_indices(last: Seq<u64>, now_ms: u64, threshold_ms: u64) -> Seq<usize>
    decreases last.len(),
{
    if last.len() == 0 {
        seq![]
    } else {
        stalled_indices(last.drop_last(), now_ms, threshold_ms) + if spec_is_stalled(
            now_ms,
            last.last(),
            threshold_ms,
        ) {
            seq![(last.len() - 1) as usize]
        } else {
            seq![]
        }
    }
}

pub fn stalled_sessions(last_payload_ms: &Vec<u64>, now_ms: u64, threshold_ms: u64) -> (r: Vec<usize>)
    ensures
        r@ == stalled_indices(last_payload_ms@, now_ms, threshold_ms),
{
    let mut out: Vec<usize> = Vec::new();
    let mut i: usize = 0;
    while i < last_payload_ms.len()
        invariant
            i <= last_payload_ms@.len(),
            out@ == stalled_indices(last_payload_ms@.subrange(0, i as int), now_ms, threshold_ms),
        decreases last_payload_ms@.len() - i,
    {
        assert(last_payload_ms@.subrange(0, i + 1).drop_last() =~= last_payload_ms@.subrange(0, i as int));
        if is_stalled(now_ms, last_payload_ms[i], threshold_ms) {
            out.push(i);
        }
        i = i + 1;
        assert(out@ =~= stalled_indices(last_payload_ms@.subrange(0, i as int), now_ms, threshold_ms));
    }
    assert(last_payload_ms@.subrange(0, last_payload_ms@.len() as int) =~= last_payload_ms@);
    out
}

// ---------------------------------------------------------------- fan-out receiver

/// What one receive from the fan-out bus gave a sink.
#[derive(Debug, Clone, Copy, PartialEq, Eq, Structural)]
pub enum RecvOutcome {
    Frame,
    /// The receiver fell behind; this many of the oldest frames were dropped.
    Lagged(u64),
    Closed,
}

/// Per-receiver counters of a sink.
#[derive(Debug, Clone, Copy, PartialEq, Eq, Structural)]
pub struct ReceiverStats {
    pub delivered: u64,
    pub lost: u64,
}

pub open spec fn sat_add(a: u64, b: u64) -> u64 {
    if a + b <= u64::MAX { (a + b) as u64 } else { u64::MAX }
}

pub open spec fn spec_record(s: ReceiverStats, o: RecvOutcome) -> ReceiverStats {
    match o {
        RecvOutcome::Frame => ReceiverStats { delivered: sat_add(s.delivered, 1), lost: s.lost },
        RecvOutcome::Lagged(n) => ReceiverStats { delivered: s.delivered, lost: sat_add(s.lost, n) },
        RecvOutcome::Closed => s,
    }
}

impl ReceiverStats {
    pub fn new() -> (r: Self)
        ensures
            r.delivered == 0 && r.lost == 0,
    {
        ReceiverStats { delivered: 0, lost: 0 }
    }

    /// Counts one receive; returns whether the sink keeps receiving.
    pub fn record(&mut self, o: RecvOutcome) -> (keep_going: bool)
        ensures
            *final(self) == spec_record(*old(self), o),
            keep_going == (o != RecvOutcome::Closed),
    {
        match o {
            RecvOutcome::Frame => {
                self.delivered = self.delivered.saturating_add(1);
                true
            },
            RecvOutcome::Lagged(n) => {
                self.lost = self.lost.saturating_add(n);
                true
            },
            RecvOutcome::Closed => false,
        }
    }
}

/// The counters after a run of receives.
pub open spec fn run_record(s: ReceiverStats, os: Seq<RecvOutcome>) -> ReceiverStats
    decreases os.len(),
{
    if os.len() == 0 {
        s
    } else {
        spec_record(run_record(s, os.drop_last()), os.last())
    }
}

/// A receiver's loss counter never goes down over a run of receives.
pub proof fn lemma_loss_monotone(s: ReceiverStats, os: Seq<RecvOutcome>, k: int)
    requires
        0 <= k <= os.len(),
    ensures
        run_record(s, os.subrange(0, k)).lost <= run_record(s, os).lost,
    decreases os.len() - k,
{
    if k < os.len() {
        lemma_loss_monotone(s, os, k + 1);
        assert(os.subrange(0, k + 1).drop_last() =~= os.subrange(0, k));
    } else {
        assert(os.subrange(0, k) =~= os);
    }
}

} // verus!
