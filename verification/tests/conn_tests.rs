use script_service::conn::{ConnAction, ConnEvent, WsConn, WsConnState};
use script_service::messages::{Auth, StandardErrors, TestData, WsData};

fn fresh() -> WsConn {
    // accepted at t=1000ms, probe every 4s, timeout after 30s
    WsConn::new(1000, 4000, 30000)
}

fn auth_frame(message_id: i64, script_id: i64) -> ConnEvent {
    ConnEvent::Frame(WsData::Auth(Auth {
        message_id,
        token: "tok".to_string(),
        script_id,
    }))
}

#[test]
fn fresh_connection_is_connected() {
    let c = fresh();
    assert_eq!(c.get_state(), WsConnState::Connected);
}

#[test]
fn auth_frame_calls_gate() {
    let mut c = fresh();
    let acts = c.step(auth_frame(9, 77));
    assert_eq!(acts.len(), 1);
    match &acts[0] {
        ConnAction::CallAuthGate { message_id, token, script_id } => {
            assert_eq!(*message_id, 9);
            assert_eq!(token, "tok");
            assert_eq!(*script_id, 77);
        },
        _ => panic!("expected a gate call"),
    }
    assert_eq!(c.get_state(), WsConnState::Connected);
}

#[test]
fn valid_token_and_admission_reach_ready() {
    let mut c = fresh();
    c.step(auth_frame(9, 77));
    let acts = c.step(ConnEvent::AuthResult(Ok(4321)));
    assert_eq!(c.get_state(), WsConnState::Authenticated);
    assert_eq!(acts.len(), 1);
    match &acts[0] {
        ConnAction::RequestJoin { script_id, user_id } => {
            assert_eq!(*script_id, 77);
            assert_eq!(*user_id, 4321);
        },
        _ => panic!("expected an admission request"),
    }
    let acts = c.step(ConnEvent::JoinResult(Ok(())));
    assert_eq!(c.get_state(), WsConnState::Ready);
    assert!(acts.is_empty());
}

#[test]
fn invalid_token_closes_and_echoes_message_id() {
    let mut c = fresh();
    c.step(auth_frame(41, 77));
    let acts = c.step(ConnEvent::AuthResult(Err(StandardErrors::FatalError(
        "invalid_token".to_string(),
    ))));
    assert_eq!(c.get_state(), WsConnState::Closing);
    assert_eq!(acts.len(), 2);
    match &acts[0] {
        ConnAction::SendError { message_id, error } => {
            assert_eq!(*message_id, 41);
            assert_eq!(error, "Fatal error: invalid_token");
        },
        _ => panic!("expected an error envelope"),
    }
    match &acts[1] {
        ConnAction::SendClose { reason } => {
            assert_eq!(reason.as_deref(), Some("invalid_token"));
        },
        _ => panic!("expected a close"),
    }
}

#[test]
fn internal_auth_error_closes_unannounced() {
    let mut c = fresh();
    c.step(auth_frame(1, 2));
    let acts = c.step(ConnEvent::AuthResult(Err(StandardErrors::Internal(
        "jwt parse".to_string(),
    ))));
    match &acts[1] {
        ConnAction::SendClose { reason } => {
            assert_eq!(reason.as_deref(), Some("unknown_error"));
        },
        _ => panic!("expected a close"),
    }
}

#[test]
fn admission_denied_closes_with_reason() {
    let mut c = fresh();
    c.step(auth_frame(1, 2));
    c.step(ConnEvent::AuthResult(Ok(5)));
    let acts = c.step(ConnEvent::JoinResult(Err("room full".to_string())));
    assert_eq!(c.get_state(), WsConnState::Closing);
    assert_eq!(acts.len(), 1);
    match &acts[0] {
        ConnAction::SendClose { reason } => assert_eq!(reason.as_deref(), Some("room full")),
        _ => panic!("expected a close"),
    }
}

#[test]
fn data_before_admission_is_dropped() {
    let mut c = fresh();
    let acts = c.step(ConnEvent::Frame(WsData::Data(TestData { data: "x".to_string() })));
    assert!(acts.is_empty());
    assert_eq!(c.get_state(), WsConnState::Connected);
}

#[test]
fn data_when_ready_is_forwarded() {
    let mut c = fresh();
    c.step(auth_frame(1, 7));
    c.step(ConnEvent::AuthResult(Ok(5)));
    c.step(ConnEvent::JoinResult(Ok(())));
    let acts = c.step(ConnEvent::Frame(WsData::Data(TestData { data: "hi".to_string() })));
    assert_eq!(acts.len(), 1);
    match &acts[0] {
        ConnAction::Forward { script_id, user_id, payload } => {
            assert_eq!(*script_id, 7);
            assert_eq!(*user_id, 5);
            assert_eq!(payload, "hi");
        },
        _ => panic!("expected a forward"),
    }
}

#[test]
fn repeated_auth_frame_is_dropped() {
    let mut c = fresh();
    c.step(auth_frame(1, 7));
    let acts = c.step(auth_frame(2, 8));
    assert!(acts.is_empty());
}

#[test]
fn stale_auth_result_is_discarded() {
    let mut c = fresh();
    c.step(auth_frame(1, 7));
    c.step(ConnEvent::TransportClosed);
    assert_eq!(c.get_state(), WsConnState::Closed);
    let acts = c.step(ConnEvent::AuthResult(Ok(5)));
    assert!(acts.is_empty());
    assert_eq!(c.get_state(), WsConnState::Closed);
}

fn count_releases(acts: &[ConnAction]) -> usize {
    acts.iter().filter(|a| matches!(a, ConnAction::Release { .. })).count()
}

#[test]
fn release_issued_once_on_transport_close() {
    let mut c = fresh();
    c.step(auth_frame(1, 7));
    c.step(ConnEvent::AuthResult(Ok(5)));
    c.step(ConnEvent::JoinResult(Ok(())));
    let acts = c.step(ConnEvent::TransportClosed);
    assert_eq!(c.get_state(), WsConnState::Closed);
    assert_eq!(count_releases(&acts), 1);
    match &acts[0] {
        ConnAction::Release { script_id, user_id } => {
            assert_eq!(*script_id, 7);
            assert_eq!(*user_id, 5);
        },
        _ => panic!("expected a release"),
    }
    // a second transport-closed signal must not release again
    let acts = c.step(ConnEvent::TransportClosed);
    assert_eq!(count_releases(&acts), 0);
}

#[test]
fn release_issued_once_via_drain_path() {
    let mut c = fresh();
    c.step(auth_frame(1, 7));
    c.step(ConnEvent::AuthResult(Ok(5)));
    c.step(ConnEvent::JoinResult(Ok(())));
    // heartbeat timeout path to Closing, then drain completes
    let acts = c.step(ConnEvent::Tick { now: 1000 + 30001 });
    assert_eq!(c.get_state(), WsConnState::Closing);
    assert_eq!(count_releases(&acts), 0);
    let acts = c.step(ConnEvent::DrainComplete);
    assert_eq!(c.get_state(), WsConnState::Closed);
    assert_eq!(count_releases(&acts), 1);
}

#[test]
fn no_release_when_never_joined() {
    let mut c = fresh();
    c.step(auth_frame(1, 7));
    let acts = c.step(ConnEvent::TransportClosed);
    assert_eq!(c.get_state(), WsConnState::Closed);
    assert_eq!(count_releases(&acts), 0);
}

#[test]
fn tick_inside_window_probes() {
    let mut c = fresh();
    let acts = c.step(ConnEvent::Tick { now: 5000 });
    assert_eq!(acts.len(), 1);
    assert!(matches!(acts[0], ConnAction::SendPing));
    assert_eq!(c.get_state(), WsConnState::Connected);
}

#[test]
fn silent_past_timeout_closes_with_heartbeat_reason() {
    let mut c = fresh();
    c.step(auth_frame(1, 7));
    c.step(ConnEvent::AuthResult(Ok(5)));
    c.step(ConnEvent::JoinResult(Ok(())));
    c.step(ConnEvent::Liveness { now: 2000 });
    // no signal between t=2s and t=2s+30s+1ms
    let acts = c.step(ConnEvent::Tick { now: 2000 + 30001 });
    assert_eq!(c.get_state(), WsConnState::Closing);
    assert_eq!(acts.len(), 1);
    match &acts[0] {
        ConnAction::SendClose { reason } => {
            assert_eq!(reason.as_deref(), Some("heartbeat_timeout"));
        },
        _ => panic!("expected a close"),
    }
}

#[test]
fn liveness_signal_defers_timeout() {
    let mut c = fresh();
    c.step(ConnEvent::Liveness { now: 29000 });
    let acts = c.step(ConnEvent::Tick { now: 31001 });
    assert!(matches!(acts[0], ConnAction::SendPing));
    assert_eq!(c.get_state(), WsConnState::Connected);
}

#[test]
fn unauthenticated_after_full_window_closes_no_auth() {
    let mut c = fresh();
    // never any liveness signal, never authenticated; window of 30s passes
    let acts = c.step(ConnEvent::Tick { now: 1000 + 30001 });
    assert_eq!(c.get_state(), WsConnState::Closing);
    assert_eq!(acts.len(), 1);
    match &acts[0] {
        ConnAction::SendClose { reason } => {
            assert_eq!(reason.as_deref(), Some("timeout_no_auth"));
        },
        _ => panic!("expected a close"),
    }
}

#[test]
fn process_message_and_interval_drive_the_machine() {
    let mut c = fresh();
    let acts = c.process_message(WsData::Auth(Auth {
        message_id: 3,
        token: "t".to_string(),
        script_id: 4,
    }));
    assert!(matches!(acts[0], ConnAction::CallAuthGate { .. }));
    let acts = c.interval(2000);
    assert!(matches!(acts[0], ConnAction::SendPing));
}

#[test]
fn data_frame_between_auth_and_admission_is_dropped() {
    let mut c = fresh();
    c.step(auth_frame(1, 7));
    c.step(ConnEvent::AuthResult(Ok(5)));
    let acts = c.step(ConnEvent::Frame(WsData::Data(TestData { data: "x".to_string() })));
    assert!(acts.is_empty());
    assert_eq!(c.get_state(), WsConnState::Authenticated);
}

#[test]
fn tick_while_closing_does_nothing() {
    let mut c = fresh();
    c.step(ConnEvent::Tick { now: 1000 + 30001 });
    assert_eq!(c.get_state(), WsConnState::Closing);
    let acts = c.step(ConnEvent::Tick { now: 1000 + 90000 });
    assert!(acts.is_empty());
    assert_eq!(c.get_state(), WsConnState::Closing);
}

#[test]
fn timeout_boundary_is_strict() {
    let mut c = fresh();
    // exactly at the threshold the peer is still within its window
    let acts = c.step(ConnEvent::Tick { now: 1000 + 30000 });
    assert!(matches!(acts[0], ConnAction::SendPing));
    assert_eq!(c.get_state(), WsConnState::Connected);
}
