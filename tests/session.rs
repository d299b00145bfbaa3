use crypto_proxy::session::{
    construct_connection, exchange_kind, is_stalled, stalled_sessions, step, ConnectStep,
    ExchangeKind, IoErrorKind, ReceiverStats, RecvOutcome, RestartPolicy, SessionAction,
    SessionEvent, SessionState, WsConnector, WsErrorKind,
};

#[test]
fn retryable_connect_errors() {
    assert!(WsConnector::is_dns_error(&WsErrorKind::Io(IoErrorKind::ConnectionRefused)));
    assert!(WsConnector::is_dns_error(&WsErrorKind::Io(IoErrorKind::NotConnected)));
    assert!(!WsConnector::is_dns_error(&WsErrorKind::Io(IoErrorKind::Other)));
    assert!(WsConnector::is_dns_error(&WsErrorKind::Http(503)));
    assert!(!WsConnector::is_dns_error(&WsErrorKind::Http(200)));
    assert!(!WsConnector::is_dns_error(&WsErrorKind::Other));
    let e = WsErrorKind::Io(IoErrorKind::ConnectionReset);
    assert_eq!(WsConnector::after_failure(0, &e), ConnectStep::RetryAfterMs(1000));
    assert_eq!(WsConnector::after_failure(3, &e), ConnectStep::RetryAfterMs(1000));
    assert_eq!(WsConnector::after_failure(4, &e), ConnectStep::GiveUp);
    assert_eq!(WsConnector::after_failure(0, &WsErrorKind::Other), ConnectStep::GiveUp);
}

#[test]
fn upstream_close_drains_closes_and_restarts() {
    let mut policy = RestartPolicy::new();
    let (s, a) = step(SessionState::Disconnected, SessionEvent::Start);
    assert_eq!((s, a), (SessionState::Connecting { attempt: 0 }, SessionAction::Connect));
    let (s, _) = step(s, SessionEvent::Connected);
    assert_eq!(s, SessionState::Subscribed);
    assert_eq!(step(s, SessionEvent::Data).1, SessionAction::Forward);
    assert_eq!(step(s, SessionEvent::Ping).1, SessionAction::SendPong);
    let (s, a) = step(s, SessionEvent::CloseFrame);
    assert_eq!((s, a), (SessionState::Draining, SessionAction::StartDrain));
    assert_eq!(step(s, SessionEvent::Data), (SessionState::Draining, SessionAction::Nothing));
    let (s, a) = step(s, SessionEvent::Drained);
    assert_eq!((s, a), (SessionState::Closed, SessionAction::ReportClosed));
    assert_eq!(step(s, SessionEvent::Data), (SessionState::Closed, SessionAction::Nothing));
    let wait = policy.on_session_closed(5_000);
    assert_eq!(wait, 1000);
    let (n, _) = step(SessionState::Disconnected, SessionEvent::Start);
    let (n, _) = step(n, SessionEvent::Connected);
    assert_eq!(step(n, SessionEvent::Data), (SessionState::Subscribed, SessionAction::Forward));
}

#[test]
fn connect_failures_in_session() {
    let s = SessionState::Connecting { attempt: 0 };
    let retry = step(s, SessionEvent::ConnectFailed(WsErrorKind::Http(502)));
    assert_eq!(retry, (SessionState::Connecting { attempt: 1 }, SessionAction::ConnectAfterMs(1000)));
    let fatal = step(s, SessionEvent::ConnectFailed(WsErrorKind::Other));
    assert_eq!(fatal, (SessionState::Disconnected, SessionAction::ReportFailed));
    assert_eq!(step(SessionState::Subscribed, SessionEvent::Shutdown).0, SessionState::Draining);
    assert_eq!(step(SessionState::Subscribed, SessionEvent::ReadError).0, SessionState::Draining);
}

#[test]
fn backoff_doubles_caps_and_resets() {
    let mut p = RestartPolicy::new();
    let waits: Vec<u64> = (0..7).map(|_| p.on_session_closed(0)).collect();
    assert_eq!(waits, vec![1000, 2000, 4000, 8000, 16000, 30000, 30000]);
    assert_eq!(p.on_session_closed(60_000), 1000);
    assert_eq!(p.on_session_closed(0), 2000);
}

#[test]
fn idle_sessions_are_flagged() {
    assert!(is_stalled(200_001, 80_000, 120_000));
    assert!(!is_stalled(200_000, 80_000, 120_000));
    assert!(!is_stalled(10, 20, 0));
    assert_eq!(stalled_sessions(&vec![0, 100_000, 5], 130_000, 120_000), vec![0, 2]);
}

#[test]
fn loss_counter_only_rises() {
    let mut s = ReceiverStats::new();
    let mut seen = 0;
    for o in [RecvOutcome::Frame, RecvOutcome::Lagged(3), RecvOutcome::Frame, RecvOutcome::Lagged(u64::MAX), RecvOutcome::Lagged(1)] {
        assert!(s.record(o));
        assert!(s.lost >= seen);
        seen = s.lost;
    }
    assert_eq!(s.lost, u64::MAX);
    assert_eq!(s.delivered, 2);
    assert!(!s.record(RecvOutcome::Closed));
}

#[test]
fn exchanges_and_descriptors() {
    assert_eq!(exchange_kind("binance-futures"), Some(ExchangeKind::Binance));
    assert_eq!(exchange_kind("okex"), Some(ExchangeKind::Okex));
    assert_eq!(exchange_kind("bybit-spot"), Some(ExchangeKind::Bybit));
    assert_eq!(exchange_kind("kraken"), None);
    let d = construct_connection("okex-swap", "n".to_string(), "wss://x".to_string(), "{}".to_string()).unwrap();
    assert_eq!(d.exchange, ExchangeKind::Okex);
    assert_eq!(d.subscribe_payload, "{}");
    assert!(construct_connection("x", "n".to_string(), "u".to_string(), "{}".to_string()).is_none());
}
