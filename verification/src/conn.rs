//! The per-connection lifecycle state machine.
//!
//! One `WsConn` value is owned by exactly one transport task.  The task
//! feeds it events — parsed inbound frames, results of authentication and
//! admission calls, heartbeat ticks, transport closure — and performs the
//! actions the machine hands back.  All decisions live here; the transport
//! task only moves bytes and time.
//!
//! The whole transition relation is the spec function [`conn_step`]; every
//! executable entry point is proved equal to it, and the lifecycle laws are
//! proved about it.

use vstd::prelude::*;
use crate::heartbeat::{Heartbeat, HeartbeatVerdict, hb_observed, hb_verdict, hb_wf};
use crate::messages::{
    AuthV,
    StandardErrors,
    StandardErrorsV,
    WsData,
    WsDataV,
    spec_close_reason,
    spec_error_text,
};

verus! {

/// Lifecycle states of a connection.
#[derive(Clone, Copy, PartialEq, Eq, Structural, Debug)]
pub enum WsConnState {
    /// Transport open, peer not yet authenticated.
    Connected,
    /// Identity known; room not yet joined.
    Authenticated,
    /// Room membership granted; traffic flows.
    Ready,
    /// Close initiated; draining.
    Closing,
    /// Terminal.
    Closed,
}

/// An event delivered to a connection's state machine.  Exactly one event
/// is serviced at a time; no two for the same connection run concurrently.
pub enum ConnEvent {
    /// A parsed inbound text envelope.
    Frame(WsData),
    /// A liveness signal (pong or equivalent) observed at `now`.
    Liveness { now: u64 },
    /// The auth gate answered the pending authentication request.
    AuthResult(Result<i64, StandardErrors>),
    /// The room manager answered the pending admission request.
    JoinResult(Result<(), String>),
    /// A heartbeat supervisor tick at `now`.
    Tick { now: u64 },
    /// The peer or the network closed the transport.
    TransportClosed,
    /// The outstanding close frame was sent and acknowledged.
    DrainComplete,
}

/// An action the transport task must perform after a transition.
pub enum ConnAction {
    /// Ask the auth gate to validate `token` and authorize `script_id`.
    CallAuthGate { message_id: i64, token: String, script_id: i64 },
    /// Ask the room manager to admit `user_id` into `script_id`'s room.
    RequestJoin { script_id: i64, user_id: i64 },
    /// Send the peer an error envelope echoing `message_id`.
    SendError { message_id: i64, error: String },
    /// Hand `payload` to the room manager for fanout and to the bus bridge
    /// for outbound publish.
    Forward { script_id: i64, user_id: i64, payload: String },
    /// Send a heartbeat probe to the peer.
    SendPing,
    /// Initiate a server-side close, announcing `reason` if any.
    SendClose { reason: Option<String> },
    /// Tell the room manager this member is gone.
    Release { script_id: i64, user_id: i64 },
}

/// Spec mirror of `ConnEvent`.
pub ghost enum ConnEventV {
    Frame(WsDataV),
    Liveness { now: u64 },
    AuthResult(Result<int, StandardErrorsV>),
    JoinResult(Result<(), Seq<char>>),
    Tick { now: u64 },
    TransportClosed,
    DrainComplete,
}

/// Spec mirror of `ConnAction`.
pub ghost enum ConnActionV {
    CallAuthGate { message_id: int, token: Seq<char>, script_id: int },
    RequestJoin { script_id: int, user_id: int },
    SendError { message_id: int, error: Seq<char> },
    Forward { script_id: int, user_id: int, payload: Seq<char> },
    SendPing,
    SendClose { reason: Option<Seq<char>> },
    Release { script_id: int, user_id: int },
}

impl View for ConnEvent {
    type V = ConnEventV;

    open spec fn view(&self) -> ConnEventV {
        match self {
            ConnEvent::Frame(d) => ConnEventV::Frame(d@),
            ConnEvent::Liveness { now } => ConnEventV::Liveness { now: *now },
            ConnEvent::AuthResult(r) => ConnEventV::AuthResult(
                match r {
                    Ok(u) => Ok(*u as int),
                    Err(e) => Err(e@),
                },
            ),
            ConnEvent::JoinResult(r) => ConnEventV::JoinResult(
                match r {
                    Ok(_) => Ok(()),
                    Err(e) => Err(e@),
                },
            ),
            ConnEvent::Tick { now } => ConnEventV::Tick { now: *now },
            ConnEvent::TransportClosed => ConnEventV::TransportClosed,
            ConnEvent::DrainComplete => ConnEventV::DrainComplete,
        }
    }
}

impl View for ConnAction {
    type V = ConnActionV;

    open spec fn view(&self) -> ConnActionV {
        match self {
            ConnAction::CallAuthGate { message_id, token, script_id } => ConnActionV::CallAuthGate {
                message_id: *message_id as int,
                token: token@,
                script_id: *script_id as int,
            },
            ConnAction::RequestJoin { script_id, user_id } => ConnActionV::RequestJoin {
                script_id: *script_id as int,
                user_id: *user_id as int,
            },
            ConnAction::SendError { message_id, error } => ConnActionV::SendError {
                message_id: *message_id as int,
                error: error@,
            },
            ConnAction::Forward { script_id, user_id, payload } => ConnActionV::Forward {
                script_id: *script_id as int,
                user_id: *user_id as int,
                payload: payload@,
            },
            ConnAction::SendPing => ConnActionV::SendPing,
            ConnAction::SendClose { reason } => ConnActionV::SendClose {
                reason: match reason {
                    Some(r) => Some(r@),
                    None => None,
                },
            },
            ConnAction::Release { script_id, user_id } => ConnActionV::Release {
                script_id: *script_id as int,
                user_id: *user_id as int,
            },
        }
    }
}

/// The view of a sequence of actions.
pub open spec fn acts_view(s: Seq<ConnAction>) -> Seq<ConnActionV> {
    s.map_values(|a: ConnAction| a@)
}

/// Spec model of one connection.
pub ghost struct ConnModel {
    pub user_id: int,
    pub script_id: int,
    pub state: WsConnState,
    pub hb: Heartbeat,
    /// Message identifier of the authentication request in flight, if any.
    pub pending_auth: Option<int>,
    /// Whether room membership was ever granted.
    pub joined: bool,
    /// Whether the membership-release notification has been issued.
    pub released: bool,
}

/// A connection as freshly accepted.
pub open spec fn fresh_conn(m: ConnModel) -> bool {
    &&& m.state is Connected
    &&& m.pending_auth is None
    &&& !m.joined
    &&& !m.released
}

/// Entering the terminal state: the membership-release notification is
/// issued now if membership was granted and it has not been issued before,
/// whatever path led here.
pub open spec fn close_now(m: ConnModel) -> (ConnModel, Seq<ConnActionV>) {
    let closed = ConnModel { state: WsConnState::Closed, released: m.released || m.joined, ..m };
    if m.joined && !m.released {
        (closed, seq![ConnActionV::Release { script_id: m.script_id, user_id: m.user_id }])
    } else {
        (closed, seq![])
    }
}

/// The complete transition relation of the connection state machine: from a
/// model and an event to the successor model and the actions owed to the
/// transport task.
pub open spec fn conn_step(m: ConnModel, e: ConnEventV) -> (ConnModel, Seq<ConnActionV>) {
    match e {
        ConnEventV::Frame(WsDataV::Auth(a)) => {
            if m.state is Connected && m.pending_auth is None {
                (
                    ConnModel { script_id: a.script_id, pending_auth: Some(a.message_id), ..m },
                    seq![
                        ConnActionV::CallAuthGate {
                            message_id: a.message_id,
                            token: a.token,
                            script_id: a.script_id,
                        },
                    ],
                )
            } else {
                // a repeated or out-of-place auth frame is a protocol error:
                // dropped, the connection stays as it is
                (m, seq![])
            }
        },
        ConnEventV::Frame(WsDataV::Data(p)) => {
            if m.state is Ready {
                (
                    m,
                    seq![
                        ConnActionV::Forward {
                            script_id: m.script_id,
                            user_id: m.user_id,
                            payload: p,
                        },
                    ],
                )
            } else {
                // data before admission is rejected: dropped, never promoted
                (m, seq![])
            }
        },
        ConnEventV::Liveness { now } => (ConnModel { hb: hb_observed(m.hb, now), ..m }, seq![]),
        ConnEventV::AuthResult(r) => {
            if m.state is Connected && m.pending_auth is Some {
                let mid = m.pending_auth->0;
                match r {
                    Ok(u) => (
                        ConnModel {
                            user_id: u,
                            state: WsConnState::Authenticated,
                            pending_auth: None,
                            ..m
                        },
                        seq![ConnActionV::RequestJoin { script_id: m.script_id, user_id: u }],
                    ),
                    Err(err) => (
                        ConnModel { state: WsConnState::Closing, pending_auth: None, ..m },
                        seq![
                            ConnActionV::SendError { message_id: mid, error: spec_error_text(err) },
                            ConnActionV::SendClose { reason: Some(spec_close_reason(err)) },
                        ],
                    ),
                }
            } else {
                // the result of a call that outlived its connection state is
                // discarded, never applied
                (m, seq![])
            }
        },
        ConnEventV::JoinResult(r) => {
            if m.state is Authenticated {
                match r {
                    Ok(_) => (ConnModel { state: WsConnState::Ready, joined: true, ..m }, seq![]),
                    Err(reason) => (
                        ConnModel { state: WsConnState::Closing, ..m },
                        seq![ConnActionV::SendClose { reason: Some(reason) }],
                    ),
                }
            } else {
                (m, seq![])
            }
        },
        ConnEventV::Tick { now } => {
            if m.state is Closing || m.state is Closed {
                (m, seq![])
            } else {
                match hb_verdict(m.hb, now, m.state is Connected) {
                    HeartbeatVerdict::Expired => (
                        ConnModel { state: WsConnState::Closing, ..m },
                        seq![ConnActionV::SendClose { reason: Some("heartbeat_timeout"@) }],
                    ),
                    HeartbeatVerdict::ExpiredNoAuth => (
                        ConnModel { state: WsConnState::Closing, ..m },
                        seq![ConnActionV::SendClose { reason: Some("timeout_no_auth"@) }],
                    ),
                    HeartbeatVerdict::Probe => (m, seq![ConnActionV::SendPing]),
                }
            }
        },
        ConnEventV::TransportClosed => close_now(m),
        ConnEventV::DrainComplete => {
            if m.state is Closing {
                close_now(m)
            } else {
                (m, seq![])
            }
        },
    }
}

/// One connection: lifecycle state, identity once known, and its liveness
/// bookkeeping.  Owned exclusively by one transport task.
pub struct WsConn {
    /// Identity granted by authentication; zero until then.
    pub user_id: i64,
    /// Resource identifier, fixed by the first authentication request.
    pub script_id: i64,
    /// Lifecycle state.
    pub state: WsConnState,
    /// Liveness bookkeeping.
    pub hb: Heartbeat,
    /// Message identifier of the in-flight authentication request.
    pub pending_auth: Option<i64>,
    /// Whether room membership was ever granted.
    pub joined: bool,
    /// Whether the membership release has been issued.
    pub released: bool,
}

impl View for WsConn {
    type V = ConnModel;

    open spec fn view(&self) -> ConnModel {
        ConnModel {
            user_id: self.user_id as int,
            script_id: self.script_id as int,
            state: self.state,
            hb: self.hb,
            pending_auth: match self.pending_auth {
                Some(mid) => Some(mid as int),
                None => None,
            },
            joined: self.joined,
            released: self.released,
        }
    }
}

impl WsConn {
    /// A connection freshly accepted at `now`, supervised with the given
    /// probe interval and timeout threshold (milliseconds).
    pub fn new(now: u64, interval_ms: u64, timeout_ms: u64) -> (r: WsConn)
        requires
            0 < interval_ms < timeout_ms,
        ensures
            fresh_conn(r@),
            r@.hb == (Heartbeat {
                last_seen: now,
                started_at: now,
                liveness_count: 0,
                interval_ms,
                timeout_ms,
            }),
            hb_wf(r@.hb),
            r@.user_id == 0,
            r@.script_id == 0,
    {
        WsConn {
            user_id: 0,
            script_id: 0,
            state: WsConnState::Connected,
            hb: Heartbeat::new(now, interval_ms, timeout_ms),
            pending_auth: None,
            joined: false,
            released: false,
        }
    }

    /// Services one event: applies the transition `conn_step` describes and
    /// returns the actions owed to the transport task.
    pub fn step(&mut self, event: ConnEvent) -> (actions: Vec<ConnAction>)
        ensures
            final(self)@ == conn_step(old(self)@, event@).0,
            acts_view(actions@) == conn_step(old(self)@, event@).1,
    {
        let mut out: Vec<ConnAction> = Vec::new();
        match &event {
            ConnEvent::Frame(WsData::Auth(a)) => {
                if self.state == WsConnState::Connected && self.pending_auth.is_none() {
                    self.script_id = a.script_id;
                    self.pending_auth = Some(a.message_id);
                    out.push(
                        ConnAction::CallAuthGate {
                            message_id: a.message_id,
                            token: a.token.clone(),
                            script_id: a.script_id,
                        },
                    );
                }
                proof {
                    assert(acts_view(out@) =~= conn_step(old(self)@, event@).1);
                }
            },
            ConnEvent::Frame(WsData::Data(d)) => {
                if self.state == WsConnState::Ready {
                    out.push(
                        ConnAction::Forward {
                            script_id: self.script_id,
                            user_id: self.user_id,
                            payload: d.data.clone(),
                        },
                    );
                }
                proof {
                    assert(acts_view(out@) =~= conn_step(old(self)@, event@).1);
                }
            },
            ConnEvent::Liveness { now } => {
                self.hb.observe(*now);
                proof {
                    assert(acts_view(out@) =~= conn_step(old(self)@, event@).1);
                }
            },
            ConnEvent::AuthResult(r) => {
                if self.state == WsConnState::Connected && self.pending_auth.is_some() {
                    let mid = self.pending_auth.unwrap();
                    match r {
                        Ok(u) => {
                            self.user_id = *u;
                            self.state = WsConnState::Authenticated;
                            self.pending_auth = None;
                            out.push(
                                ConnAction::RequestJoin { script_id: self.script_id, user_id: *u },
                            );
                        },
                        Err(err) => {
                            self.state = WsConnState::Closing;
                            self.pending_auth = None;
                            out.push(
                                ConnAction::SendError { message_id: mid, error: err.message() },
                            );
                            out.push(ConnAction::SendClose { reason: Some(err.close_reason()) });
                        },
                    }
                }
                proof {
                    assert(acts_view(out@) =~= conn_step(old(self)@, event@).1);
                }
            },
            ConnEvent::JoinResult(r) => {
                if self.state == WsConnState::Authenticated {
                    match r {
                        Ok(_) => {
                            self.state = WsConnState::Ready;
                            self.joined = true;
                        },
                        Err(reason) => {
                            self.state = WsConnState::Closing;
                            out.push(ConnAction::SendClose { reason: Some(reason.clone()) });
                        },
                    }
                }
                proof {
                    assert(acts_view(out@) =~= conn_step(old(self)@, event@).1);
                }
            },
            ConnEvent::Tick { now } => {
                if self.state != WsConnState::Closing && self.state != WsConnState::Closed {
                    let verdict = self.hb.check(*now, self.state == WsConnState::Connected);
                    match verdict {
                        HeartbeatVerdict::Expired => {
                            self.state = WsConnState::Closing;
                            out.push(
                                ConnAction::SendClose {
                                    reason: Some("heartbeat_timeout".to_owned()),
                                },
                            );
                        },
                        HeartbeatVerdict::ExpiredNoAuth => {
                            self.state = WsConnState::Closing;
                            out.push(
                                ConnAction::SendClose { reason: Some("timeout_no_auth".to_owned()) },
                            );
                        },
                        HeartbeatVerdict::Probe => {
                            out.push(ConnAction::SendPing);
                        },
                    }
                }
                proof {
                    assert(acts_view(out@) =~= conn_step(old(self)@, event@).1);
                }
            },
            ConnEvent::TransportClosed => {
                self.close_inner(&mut out);
            },
            ConnEvent::DrainComplete => {
                if self.state == WsConnState::Closing {
                    self.close_inner(&mut out);
                }
                proof {
                    assert(acts_view(out@) =~= conn_step(old(self)@, event@).1);
                }
            },
        }
        out
    }

    /// Enters the terminal state and issues the membership release if it is
    /// owed and has not been issued before.
    fn close_inner(&mut self, actions: &mut Vec<ConnAction>)
        ensures
            final(self)@ == close_now(old(self)@).0,
            acts_view(final(actions)@) == acts_view(old(actions)@) + close_now(old(self)@).1,
    {
        self.state = WsConnState::Closed;
        if self.joined && !self.released {
            self.released = true;
            actions.push(ConnAction::Release { script_id: self.script_id, user_id: self.user_id });
            proof {
                assert(acts_view(final(actions)@) =~= acts_view(old(actions)@) + close_now(
                    old(self)@,
                ).1);
            }
        } else {
            proof {
                assert(acts_view(final(actions)@) =~= acts_view(old(actions)@) + close_now(
                    old(self)@,
                ).1);
            }
        }
    }

    /// One parsed inbound text envelope, in arrival order.
    pub fn process_message(&mut self, msg: WsData) -> (actions: Vec<ConnAction>)
        ensures
            final(self)@ == conn_step(old(self)@, ConnEventV::Frame(msg@)).0,
            acts_view(actions@) == conn_step(old(self)@, ConnEventV::Frame(msg@)).1,
    {
        self.step(ConnEvent::Frame(msg))
    }

    /// One heartbeat supervisor tick at `now`.
    pub fn interval(&mut self, now: u64) -> (actions: Vec<ConnAction>)
        ensures
            final(self)@ == conn_step(old(self)@, ConnEventV::Tick { now }).0,
            acts_view(actions@) == conn_step(old(self)@, ConnEventV::Tick { now }).1,
    {
        self.step(ConnEvent::Tick { now })
    }

    /// The current lifecycle state.
    pub fn get_state(&self) -> (s: WsConnState)
        ensures
            s == self@.state,
    {
        self.state
    }
}

/// Folding a sequence of events through the machine from a starting model,
/// collecting every action emitted along the way.
pub open spec fn run_steps(m: ConnModel, es: Seq<ConnEventV>) -> (ConnModel, Seq<ConnActionV>)
    decreases es.len(),
{
    if es.len() == 0 {
        (m, seq![])
    } else {
        let first = conn_step(m, es[0]);
        let rest = run_steps(first.0, es.subrange(1, es.len() as int));
        (rest.0, first.1 + rest.1)
    }
}

/// How many membership-release notifications a sequence of actions holds.
pub open spec fn count_releases(s: Seq<ConnActionV>) -> nat
    decreases s.len(),
{
    if s.len() == 0 {
        0
    } else {
        (if s[0] is Release {
            1nat
        } else {
            0nat
        }) + count_releases(s.subrange(1, s.len() as int))
    }
}

proof fn lemma_count_releases_concat(s1: Seq<ConnActionV>, s2: Seq<ConnActionV>)
    ensures
        count_releases(s1 + s2) == count_releases(s1) + count_releases(s2),
    decreases s1.len(),
{
    if s1.len() == 0 {
        assert(s1 + s2 =~= s2);
    } else {
        assert((s1 + s2).subrange(1, (s1 + s2).len() as int) =~= s1.subrange(
            1,
            s1.len() as int,
        ) + s2);
        lemma_count_releases_concat(s1.subrange(1, s1.len() as int), s2);
        assert((s1 + s2)[0] == s1[0]);
    }
}

proof fn lemma_count_releases_singleton(a: ConnActionV)
    ensures
        count_releases(seq![a]) == (if a is Release {
            1nat
        } else {
            0nat
        }),
{
    assert(seq![a].subrange(1, 1) =~= Seq::<ConnActionV>::empty());
    assert(count_releases(Seq::<ConnActionV>::empty()) == 0);
    assert(seq![a][0] == a);
}

proof fn lemma_count_releases_pair(a: ConnActionV, b: ConnActionV)
    ensures
        count_releases(seq![a, b]) == (if a is Release {
            1nat
        } else {
            0nat
        }) + (if b is Release {
            1nat
        } else {
            0nat
        }),
{
    assert(seq![a, b].subrange(1, 2) =~= seq![b]);
    lemma_count_releases_singleton(b);
    assert(seq![a, b][0] == a);
}

/// The bookkeeping that ties the `released` flag to the actions emitted so
/// far: the flag is set exactly when one release has been issued, a release
/// is issued only on entering the terminal state of a joined connection,
/// and a joined connection that terminated has issued it.
pub open spec fn release_inv(m: ConnModel, released_so_far: nat) -> bool {
    &&& released_so_far == (if m.released {
        1nat
    } else {
        0nat
    })
    &&& (m.released ==> m.joined && m.state is Closed)
    &&& (m.state is Closed && m.joined ==> m.released)
}

proof fn lemma_step_release_inv(m: ConnModel, e: ConnEventV, n: nat)
    requires
        release_inv(m, n),
    ensures
        release_inv(conn_step(m, e).0, (n + count_releases(conn_step(m, e).1)) as nat),
{
    let acts = conn_step(m, e).1;
    if acts.len() == 0 {
        assert(count_releases(acts) == 0);
    } else if acts.len() == 1 {
        assert(acts =~= seq![acts[0]]);
        lemma_count_releases_singleton(acts[0]);
    } else {
        assert(acts.len() == 2);
        assert(acts =~= seq![acts[0], acts[1]]);
        lemma_count_releases_pair(acts[0], acts[1]);
    }
}

proof fn lemma_run_release_inv(m: ConnModel, es: Seq<ConnEventV>, n: nat)
    requires
        release_inv(m, n),
    ensures
        release_inv(run_steps(m, es).0, (n + count_releases(run_steps(m, es).1)) as nat),
    decreases es.len(),
{
    if es.len() == 0 {
        assert(count_releases(run_steps(m, es).1) == 0);
    } else {
        let first = conn_step(m, es[0]);
        let rest = run_steps(first.0, es.subrange(1, es.len() as int));
        lemma_step_release_inv(m, es[0], n);
        lemma_run_release_inv(first.0, es.subrange(1, es.len() as int), (n + count_releases(
            first.1,
        )) as nat);
        lemma_count_releases_concat(first.1, rest.1);
    }
}

/// LAW: whatever sequence of events a freshly accepted connection services
/// — graceful close, heartbeat timeout, transport loss, fatal error — the
/// membership-release notification is issued at most once; exactly once if
/// the connection had joined a room and reached the terminal state, and
/// never if it never joined.
pub proof fn lemma_release_exactly_once(m0: ConnModel, es: Seq<ConnEventV>)
    requires
        fresh_conn(m0),
    ensures
        count_releases(run_steps(m0, es).1) <= 1,
        run_steps(m0, es).0.state is Closed && run_steps(m0, es).0.joined ==> count_releases(
            run_steps(m0, es).1,
        ) == 1,
        !run_steps(m0, es).0.joined ==> count_releases(run_steps(m0, es).1) == 0,
{
    lemma_run_release_inv(m0, es, 0);
}

/// LAW: an auth envelope answered by a valid token and an authorized
/// resource takes a fresh connection Connected, to Authenticated when the
/// gate answers, to Ready when admission is granted; the admission request
/// carries the granted identity and the fixed resource identifier.
pub proof fn lemma_auth_round_trip_success(m: ConnModel, a: AuthV, u: int)
    requires
        fresh_conn(m),
    ensures
        ({
            let s1 = conn_step(m, ConnEventV::Frame(WsDataV::Auth(a)));
            let s2 = conn_step(s1.0, ConnEventV::AuthResult(Ok(u)));
            let s3 = conn_step(s2.0, ConnEventV::JoinResult(Ok(())));
            &&& s1.0.state is Connected
            &&& s1.1 =~= seq![
                ConnActionV::CallAuthGate {
                    message_id: a.message_id,
                    token: a.token,
                    script_id: a.script_id,
                },
            ]
            &&& s2.0.state is Authenticated
            &&& s2.0.user_id == u
            &&& s2.0.script_id == a.script_id
            &&& s2.1 =~= seq![ConnActionV::RequestJoin { script_id: a.script_id, user_id: u }]
            &&& s3.0.state is Ready
            &&& s3.0.joined
        }),
{
}

/// LAW: the same envelope with an invalid token takes the connection from
/// Connected to Closing, and the peer receives an error envelope echoing
/// the originating message identifier, then the close with the classified
/// reason.
pub proof fn lemma_auth_round_trip_failure(m: ConnModel, a: AuthV, err: StandardErrorsV)
    requires
        fresh_conn(m),
    ensures
        ({
            let s1 = conn_step(m, ConnEventV::Frame(WsDataV::Auth(a)));
            let s2 = conn_step(s1.0, ConnEventV::AuthResult(Err(err)));
            &&& s2.0.state is Closing
            &&& s2.1 =~= seq![
                ConnActionV::SendError { message_id: a.message_id, error: spec_error_text(err) },
                ConnActionV::SendClose { reason: Some(spec_close_reason(err)) },
            ]
        }),
{
}

/// LAW: a connection that went longer than its timeout without a liveness
/// signal is moved to Closing by the next supervisor tick, with a timeout
/// reason (the dedicated one when the peer never authenticated at all).
pub proof fn lemma_heartbeat_timeout_closes(m: ConnModel, now: u64)
    requires
        m.state is Connected || m.state is Authenticated || m.state is Ready,
        now - m.hb.last_seen > m.hb.timeout_ms,
    ensures
        ({
            let s = conn_step(m, ConnEventV::Tick { now });
            &&& s.0.state is Closing
            &&& (s.1 =~= seq![ConnActionV::SendClose { reason: Some("heartbeat_timeout"@) }] || s.1
                =~= seq![ConnActionV::SendClose { reason: Some("timeout_no_auth"@) }])
        }),
{
}

/// LAW: once a connection has observed at least one liveness signal, the
/// timeout close carries exactly the heartbeat-timeout reason.
pub proof fn lemma_heartbeat_timeout_reason(m: ConnModel, now: u64)
    requires
        m.state is Connected || m.state is Authenticated || m.state is Ready,
        now - m.hb.last_seen > m.hb.timeout_ms,
        m.state is Connected ==> m.hb.liveness_count > 0,
    ensures
        ({
            let s = conn_step(m, ConnEventV::Tick { now });
            &&& s.0.state is Closing
            &&& s.1 =~= seq![ConnActionV::SendClose { reason: Some("heartbeat_timeout"@) }]
        }),
{
}

/// LAW: a connection still unauthenticated one full timeout window after
/// accept, with zero liveness signals, is closed with the dedicated
/// no-authentication reason by the next supervisor tick.
pub proof fn lemma_no_auth_window_closes(m: ConnModel, now: u64)
    requires
        m.state is Connected,
        m.hb.liveness_count == 0,
        now - m.hb.started_at > m.hb.timeout_ms,
    ensures
        ({
            let s = conn_step(m, ConnEventV::Tick { now });
            &&& s.0.state is Closing
            &&& s.1 =~= seq![ConnActionV::SendClose { reason: Some("timeout_no_auth"@) }]
        }),
{
}

} // verus!
