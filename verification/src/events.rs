//! Tagged variants flowing through the service: events produced by sessions
//! and handshakes, tasks submitted by handlers, events reported to the
//! service handle, poll outcomes handed in by the embedding runtime, and the
//! actions the service asks the runtime to perform.

use vstd::prelude::*;

use crate::payload::{bytes_to_vec, bytes_view};
use crate::types::{IoError, Message, NetAddr, ProtocolId, PublicKey, SessionId, SessionType};

verus! {

/// Event generated by the service and delivered to the service handle.
#[derive(Debug)]
pub enum ServiceEvent {
    /// When dial remote error.
    DialerError {
        /// Remote address.
        address: NetAddr,
        /// Io error.
        error: IoError,
    },
    /// When listen error.
    ListenError {
        /// Listen address.
        address: NetAddr,
        /// Io error.
        error: IoError,
    },
    /// A session close.
    SessionClose {
        /// Session id.
        id: SessionId,
    },
    /// A session open.
    SessionOpen {
        /// Session id.
        id: SessionId,
        /// Remote address.
        address: NetAddr,
        /// Outbound or inbound.
        ty: SessionType,
        /// Remote public key.
        public_key: Option<PublicKey>,
    },
}

/// Task received by the service: an instruction that handlers and other
/// outside code send in through the service context.
#[derive(Debug)]
pub enum ServiceTask {
    /// Send protocol data.
    ProtocolMessage {
        /// Which sessions to send to; `None` means broadcast.
        ids: Option<Vec<SessionId>>,
        /// Data.
        message: Message,
    },
    /// Service-level notify for the global handler of a protocol.
    ProtocolNotify {
        /// Protocol id.
        proto_id: ProtocolId,
        /// Notify token.
        token: u64,
    },
    /// Session-level notify for one per-session handler.
    ProtocolSessionNotify {
        /// Session id.
        id: SessionId,
        /// Protocol id.
        proto_id: ProtocolId,
        /// Notify token.
        token: u64,
    },
    /// A user future to spawn on the executor, named by a token the
    /// embedding runtime resolves.
    FutureTask {
        /// Task token.
        task: u64,
    },
    /// Disconnect a session.
    Disconnect {
        /// Session id.
        id: SessionId,
    },
    /// Dial an address.
    Dial {
        /// Remote address.
        address: NetAddr,
    },
}

/// Event on the session-event channel, and command on a per-session command
/// channel; one tagged type serves both directions, as the sessions and the
/// service share it.
#[derive(Debug)]
pub enum SessionEvent {
    /// A session closed, or an order to a session to close.
    SessionClose {
        /// Session id.
        id: SessionId,
    },
    /// An authenticated handshake succeeded. The raw stream stays with the
    /// embedding runtime, which names it by a token.
    HandshakeSuccess {
        /// Token of the authenticated stream.
        handle: u64,
        /// Remote public key.
        public_key: PublicKey,
        /// Remote address.
        address: NetAddr,
        /// Outbound or inbound.
        ty: SessionType,
    },
    /// An authenticated handshake failed, timeout included.
    HandshakeFail {
        /// Outbound or inbound.
        ty: SessionType,
        /// What went wrong.
        error: IoError,
    },
    /// Protocol data, inbound from a session or outbound to one.
    ProtocolMessage {
        /// Session id.
        id: SessionId,
        /// Protocol id.
        proto_id: ProtocolId,
        /// Data, shared by reference count across deliveries.
        data: bytes::Bytes,
    },
    /// A protocol opened on a substream of a session.
    ProtocolOpen {
        /// Session id.
        id: SessionId,
        /// Protocol id.
        proto_id: ProtocolId,
        /// Remote address.
        remote_address: NetAddr,
        /// Remote public key.
        remote_public_key: Option<PublicKey>,
        /// Outbound or inbound.
        ty: SessionType,
        /// Version the substream negotiated.
        version: String,
    },
    /// A protocol substream closed.
    ProtocolClose {
        /// Session id.
        id: SessionId,
        /// Protocol id.
        proto_id: ProtocolId,
    },
}

/// The data of a `SessionEvent::ProtocolMessage`, copied out as plain bytes;
/// `None` for every other variant.
pub fn event_payload(event: &SessionEvent) -> (r: Option<Vec<u8>>)
    ensures
        match event {
            SessionEvent::ProtocolMessage { data, .. } => r matches Some(v) && v@ == bytes_view(
                *data,
            ),
            _ => r is None,
        },
{
    match event {
        SessionEvent::ProtocolMessage { data, .. } => Some(bytes_to_vec(data)),
        _ => None,
    }
}

/// Outcome of polling one pending outbound connect.
#[derive(Clone, Copy, Debug)]
pub enum DialPoll {
    /// The connect resolved; the runtime names the raw stream by a token.
    Ready {
        /// Token of the raw stream.
        handle: u64,
    },
    /// Still connecting.
    Pending,
    /// The connect failed.
    Failed {
        /// What went wrong.
        error: IoError,
    },
}

/// Outcome of polling one bound listener.
#[derive(Clone, Copy, Debug)]
pub enum ListenPoll {
    /// A connection was accepted; the runtime names the raw stream by a token.
    Accepted {
        /// Token of the raw stream.
        handle: u64,
    },
    /// The accept stream is exhausted; the listener is dropped.
    Closed,
    /// Nothing to accept.
    Pending,
    /// Accepting failed; the listener is kept.
    Failed {
        /// What went wrong.
        error: IoError,
    },
}

/// Result of one event-loop iteration.
#[derive(Clone, Copy, Debug, PartialEq, Eq, Structural)]
pub enum ServicePoll {
    /// The termination condition holds: no listener, no outstanding outbound
    /// work, no session.
    Complete,
    /// There is still work; the loop should run again once the runtime has
    /// something new.
    NotReady,
}

/// What the service asks the embedding runtime to do, in order. Handler
/// calls run inline on the loop and must not block; transport and executor
/// work is carried out by the runtime.
#[derive(Debug)]
pub enum Action {
    /// Start an outbound connect to this address; its outcome comes back as
    /// a dial poll result on the next iterations.
    StartDial {
        /// Remote address.
        address: NetAddr,
    },
    /// Spawn the authenticated handshake for this raw stream, with a
    /// ten-second timeout; its outcome comes back as `HandshakeSuccess` or
    /// `HandshakeFail` on the session-event channel.
    StartHandshake {
        /// Token of the raw stream.
        handle: u64,
        /// Remote address.
        address: NetAddr,
        /// Outbound or inbound.
        ty: SessionType,
    },
    /// Shut the stream down: a duplicate public key was seen.
    ShutdownStream {
        /// Token of the stream.
        handle: u64,
    },
    /// Hand the authenticated stream and its metadata to a new session and
    /// spawn the session's polling loop.
    SpawnSession {
        /// Session id.
        id: SessionId,
        /// Token of the authenticated stream.
        handle: u64,
        /// Remote address.
        address: NetAddr,
        /// Outbound or inbound.
        ty: SessionType,
        /// Remote public key.
        public_key: Option<PublicKey>,
    },
    /// Ask the session to open a substream for the named protocol.
    OpenProtoStream {
        /// Session id.
        id: SessionId,
        /// Protocol name.
        name: String,
    },
    /// Best-effort send of a close order on the session's command channel.
    SendSessionClose {
        /// Session id.
        id: SessionId,
    },
    /// Spawn a user future on the executor.
    SpawnFuture {
        /// Task token.
        task: u64,
    },
    /// Call `handle_error` on the service handle.
    ServiceError {
        /// The event to report.
        event: ServiceEvent,
    },
    /// Call `handle_event` on the service handle.
    ServiceNotify {
        /// The event to report.
        event: ServiceEvent,
    },
    /// Instantiate the global handler of the protocol and call its `init`.
    GlobalInit {
        /// Protocol id.
        proto_id: ProtocolId,
    },
    /// Call `connected` on the global handler of the protocol.
    GlobalConnected {
        /// Protocol id.
        proto_id: ProtocolId,
        /// Session id.
        id: SessionId,
        /// Remote address.
        address: NetAddr,
        /// Outbound or inbound.
        ty: SessionType,
        /// Remote public key.
        public_key: Option<PublicKey>,
        /// Version the substream negotiated.
        version: String,
    },
    /// Call `received` on the global handler of the protocol.
    GlobalReceived {
        /// Protocol id.
        proto_id: ProtocolId,
        /// The message, bytes cloned for this delivery.
        message: Message,
    },
    /// Call `disconnected` on the global handler of the protocol.
    GlobalDisconnected {
        /// Protocol id.
        proto_id: ProtocolId,
        /// Session id.
        id: SessionId,
    },
    /// Call `notify` on the global handler of the protocol.
    GlobalNotify {
        /// Protocol id.
        proto_id: ProtocolId,
        /// Notify token.
        token: u64,
    },
    /// Instantiate the per-session handler at `(id, proto_id)` and call its
    /// `init`.
    SessionInit {
        /// Session id.
        id: SessionId,
        /// Protocol id.
        proto_id: ProtocolId,
    },
    /// Call `connected` on the per-session handler at `(id, proto_id)`.
    SessionConnected {
        /// Session id.
        id: SessionId,
        /// Protocol id.
        proto_id: ProtocolId,
        /// Remote address.
        address: NetAddr,
        /// Outbound or inbound.
        ty: SessionType,
        /// Remote public key.
        public_key: Option<PublicKey>,
        /// Version the substream negotiated.
        version: String,
    },
    /// Call `received` on the per-session handler at `(id, proto_id)`.
    SessionReceived {
        /// Session id.
        id: SessionId,
        /// Protocol id.
        proto_id: ProtocolId,
        /// The message, bytes cloned for this delivery.
        message: Message,
    },
    /// Call `disconnected` on the per-session handler at `(id, proto_id)` and
    /// destroy it.
    SessionDisconnected {
        /// Session id.
        id: SessionId,
        /// Protocol id.
        proto_id: ProtocolId,
    },
    /// Call `notify` on the per-session handler at `(id, proto_id)`.
    SessionNotify {
        /// Session id.
        id: SessionId,
        /// Protocol id.
        proto_id: ProtocolId,
        /// Notify token.
        token: u64,
    },
}

} // verus!
