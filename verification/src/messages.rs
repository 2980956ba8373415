//! Shared message and configuration types: the inbound wire envelopes, the
//! outbound peer message, the per-connection action handed to the transport
//! loop, and the error taxonomy.

use vstd::prelude::*;
use crate::codec;

verus! {

/// The configuration surface, constructed once at startup and passed into
/// each component.  All fields are required; the process does not start
/// partially configured.
#[derive(Clone, Debug)]
pub struct Config {
    /// Transport listen address.
    pub listen_addr: String,
    /// Milliseconds between heartbeat probes.
    pub heartbeat_interval: u32,
    /// Milliseconds without a liveness signal after which a peer is dead.
    pub client_timeout: u32,
    /// Key material for bearer-token validation.
    pub jwt_private_key: String,
    /// Durable side-store connection string.
    pub redis_conn: String,
    /// Base URL of the external authorization authority.
    pub general_services_url: String,
    /// Connection string of the external message bus.
    pub bus_conn: String,
    /// Identity of this gateway node.
    pub node_name: String,
}

impl Config {
    /// The timeout threshold must exceed the probe interval, else every
    /// probe window may appear as a timeout.
    pub open spec fn wf(&self) -> bool {
        0 < self.heartbeat_interval < self.client_timeout
    }
}

/// Classified failures surfaced to a connection.
pub enum StandardErrors {
    /// Fatal to the operation; carries the reason handed back to the peer.
    FatalError(String),
    /// An internal fault; its detail is never forwarded verbatim.
    Internal(String),
}

impl StandardErrors {
    /// The full human-readable text of the error.
    pub fn message(&self) -> (r: String)
        ensures
            r@ == spec_error_text(self@),
    {
        match self {
            StandardErrors::FatalError(e) => {
                let mut out = String::new();
                out.append("Fatal error: ");
                out.append(e.as_str());
                out
            },
            StandardErrors::Internal(e) => {
                let mut out = String::new();
                out.append("Internal error: ");
                out.append(e.as_str());
                out
            },
        }
    }

    /// The close reason shown to the peer: a fatal error is announced as it
    /// is, anything else closes unannounced in detail.
    pub fn close_reason(&self) -> (r: String)
        ensures
            r@ == spec_close_reason(self@),
    {
        match self {
            StandardErrors::FatalError(e) => e.clone(),
            StandardErrors::Internal(_) => {
                let mut out = String::new();
                out.append("unknown_error");
                out
            },
        }
    }
}

/// Spec mirror of `StandardErrors`.
pub ghost enum StandardErrorsV {
    FatalError(Seq<char>),
    Internal(Seq<char>),
}

impl View for StandardErrors {
    type V = StandardErrorsV;

    open spec fn view(&self) -> StandardErrorsV {
        match self {
            StandardErrors::FatalError(e) => StandardErrorsV::FatalError(e@),
            StandardErrors::Internal(e) => StandardErrorsV::Internal(e@),
        }
    }
}

/// What `StandardErrors::close_reason` returns.
pub open spec fn spec_close_reason(e: StandardErrorsV) -> Seq<char> {
    match e {
        StandardErrorsV::FatalError(r) => r,
        StandardErrorsV::Internal(_) => "unknown_error"@,
    }
}

/// What `StandardErrors::message` returns.
pub open spec fn spec_error_text(e: StandardErrorsV) -> Seq<char> {
    match e {
        StandardErrorsV::FatalError(r) => "Fatal error: "@ + r,
        StandardErrorsV::Internal(r) => "Internal error: "@ + r,
    }
}

/// An instruction from a connection's state machine to its transport loop.
pub struct Action {
    /// Whether the transport is to be closed after delivering the message.
    pub close: bool,
    /// The text delivered to the peer, or the close reason.
    pub message: String,
}

impl Action {
    /// An action that closes the connection, announcing `message` as the
    /// reason.
    pub fn new_close(message: String) -> (r: Option<Action>)
        ensures
            r matches Some(a) && a.close == true && a.message == message,
    {
        Self::new(message, true)
    }

    /// An action delivering `message`, closing afterwards when `close` is
    /// set.
    pub fn new(message: String, close: bool) -> (r: Option<Action>)
        ensures
            r matches Some(a) && a.close == close && a.message == message,
    {
        Some(
            Action {
                close,
                message,
            },
        )
    }

    /// No action: the state changed without anything to tell the peer.
    pub fn empty() -> (r: Option<Action>)
        ensures
            r is None,
    {
        None
    }
}

/// An internal control signal for a connection's transport loop.
pub enum Internal {
    /// A classified failure to be surfaced.
    Error(StandardErrors),
    /// Request to send a heartbeat probe to the peer.
    Ping,
    /// The connection state changed; an optional action accompanies it.
    NewState(Option<Action>),
}

/// An outbound message for one peer, with an optional close-after-send mark.
pub struct WsMessage {
    /// The encoded text handed to the transport.
    pub message: String,
    /// Whether the connection closes once the message is delivered.
    pub close: bool,
}

impl WsMessage {
    /// A message that closes the connection after delivery.
    pub fn new_close(message: String) -> (r: Option<WsMessage>)
        ensures
            r matches Some(m) && m.close == true && m.message == message,
    {
        Some(
            WsMessage {
                message,
                close: true,
            },
        )
    }

    /// The error envelope for a failed request, echoing the originating
    /// message identifier.  It never closes the connection by itself.
    pub fn error(message_id: i64, error: String) -> (r: WsMessage)
        ensures
            r.message@ == codec::error_envelope(message_id as int, error@),
            r.close == false,
    {
        WsMessage {
            message: codec::encode_error(message_id, error.as_str()),
            close: false,
        }
    }

    /// A plain message; the connection stays open.
    pub fn new(message: String) -> (r: Option<WsMessage>)
        ensures
            r matches Some(m) && m.close == false && m.message == message,
    {
        Some(
            WsMessage {
                message,
                close: false,
            },
        )
    }
}

/// The body of an outbound error envelope.
pub struct BasicError {
    /// Identifier of the request being answered.
    pub message_id: i64,
    /// Human-readable error text.
    pub error: String,
}

impl BasicError {
    /// The JSON encoding of this envelope.
    pub fn encode(&self) -> (r: String)
        ensures
            r@ == codec::error_envelope(self.message_id as int, self.error@),
    {
        codec::encode_error(self.message_id, self.error.as_str())
    }
}

/// The authentication envelope a peer sends first: a bearer token and the
/// resource it asks to join.
pub struct Auth {
    /// Identifier echoed in any error reply.
    pub message_id: i64,
    /// The bearer token.
    pub token: String,
    /// The resource (script) identifier the peer asks for.
    pub script_id: i64,
}

/// Spec mirror of `Auth`.
pub ghost struct AuthV {
    pub message_id: int,
    pub token: Seq<char>,
    pub script_id: int,
}

impl View for Auth {
    type V = AuthV;

    open spec fn view(&self) -> AuthV {
        AuthV {
            message_id: self.message_id as int,
            token: self.token@,
            script_id: self.script_id as int,
        }
    }
}

/// An opaque data payload exchanged once a connection is admitted.
pub struct TestData {
    /// The payload text.
    pub data: String,
}

/// An inbound text envelope, told apart by shape.
pub enum WsData {
    /// Authentication request.
    Auth(Auth),
    /// Data to fan out and forward to the bus.
    Data(TestData),
}

/// Spec mirror of `WsData`.
pub ghost enum WsDataV {
    Auth(AuthV),
    Data(Seq<char>),
}

impl View for WsData {
    type V = WsDataV;

    open spec fn view(&self) -> WsDataV {
        match self {
            WsData::Auth(a) => WsDataV::Auth(a@),
            WsData::Data(d) => WsDataV::Data(d.data@),
        }
    }
}

/// Request to check whether a member may create (or join) the room of a
/// resource, answered by the external authority.
pub struct CanCreateRoom {
    pub user_id: i64,
    pub script_id: i64,
}

/// Request to record a room creation in the durable side-store.
pub struct InsertRoom {
    pub user_id: i64,
    pub script_id: i64,
}

} // verus!
