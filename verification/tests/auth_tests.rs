use script_service::auth::{classify_gate, Claims, GateReply};
use script_service::heartbeat::{Heartbeat, HeartbeatVerdict};
use script_service::messages::{Auth, StandardErrors};

fn claims(sub: &str, user: i64) -> Claims {
    Claims {
        exp: 2000,
        iat: 1000,
        nbf: 1000,
        sub: sub.to_string(),
        user,
        scope: "stream".to_string(),
    }
}

fn auth() -> Auth {
    Auth { message_id: 1, token: "tok".to_string(), script_id: 9 }
}

#[test]
fn valid_access_token_passes() {
    let r = auth().check_token(Ok(claims("access", 5)));
    let c = r.unwrap_or_else(|_| panic!("expected claims"));
    assert_eq!(c.user, 5);
    assert_eq!(c.sub, "access");
}

#[test]
fn wrong_subject_is_refused() {
    let r = auth().check_token(Ok(claims("refresh", 5)));
    match r {
        Err(StandardErrors::Internal(t)) => {
            assert_eq!(t, "JWT Auth error: invalid token subject")
        },
        _ => panic!("expected an internal error"),
    }
}

#[test]
fn validator_error_is_wrapped() {
    let r = auth().check_token(Err("ExpiredSignature".to_string()));
    match r {
        Err(StandardErrors::Internal(t)) => assert_eq!(t, "JWT Auth error: ExpiredSignature"),
        _ => panic!("expected an internal error"),
    }
}

#[test]
fn gate_request_carries_identity_and_resource() {
    let pairs = auth().gate_request(5);
    assert_eq!(pairs, vec![("user_d".to_string(), 5), ("script_id".to_string(), 9)]);
}

#[test]
fn gate_transport_failure_is_internal_fault() {
    match classify_gate(5, None) {
        Err(StandardErrors::FatalError(t)) => assert_eq!(t, "internal_error"),
        _ => panic!("expected a fatal error"),
    }
}

#[test]
fn gate_denial_carries_the_authority_words() {
    let reply = GateReply { status: 403, body: "not yours".to_string() };
    match classify_gate(5, Some(reply)) {
        Err(StandardErrors::FatalError(t)) => assert_eq!(t, "not yours"),
        _ => panic!("expected a fatal error"),
    }
}

#[test]
fn gate_authorizes_on_200() {
    let reply = GateReply { status: 200, body: "{}".to_string() };
    assert_eq!(classify_gate(5, Some(reply)).unwrap_or(-1), 5);
}

#[test]
fn heartbeat_probes_inside_window() {
    let hb = Heartbeat::new(1000, 4000, 30000);
    assert_eq!(hb.check(20000, false), HeartbeatVerdict::Probe);
}

#[test]
fn heartbeat_expires_past_window() {
    let mut hb = Heartbeat::new(1000, 4000, 30000);
    hb.observe(5000);
    assert_eq!(hb.check(35000, false), HeartbeatVerdict::Probe);
    assert_eq!(hb.check(35001, false), HeartbeatVerdict::Expired);
}

#[test]
fn heartbeat_names_missing_handshake() {
    let hb = Heartbeat::new(1000, 4000, 30000);
    // still unauthenticated, no liveness signal, window passed
    assert_eq!(hb.check(31001, true), HeartbeatVerdict::ExpiredNoAuth);
    // the same silence on an authenticated connection is a plain expiry
    assert_eq!(hb.check(31001, false), HeartbeatVerdict::Expired);
}

#[test]
fn observed_liveness_disarms_no_auth_rule() {
    let mut hb = Heartbeat::new(1000, 4000, 30000);
    hb.observe(2000);
    // one pong was seen: long silence is a plain heartbeat expiry
    assert_eq!(hb.check(40000, true), HeartbeatVerdict::Expired);
}
