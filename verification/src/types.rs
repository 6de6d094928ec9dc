//! Plain data carried through the service: identifiers, addresses, keys,
//! messages and protocol descriptors.

use vstd::prelude::*;

verus! {

/// Monotonic non-zero integer assigned by the service on each successful
/// session open; never reused within a process lifetime.
pub type SessionId = u64;

/// Numeric identifier of a registered protocol, unique within a service.
pub type ProtocolId = u64;

/// Capacity of every channel the service allocates: the session-event
/// channel, the service-task channel and each per-session command channel.
pub const CHANNEL_SIZE: usize = 256;

/// Direction of a connection as seen from this service.
#[derive(Clone, Copy, Debug, PartialEq, Eq, Structural)]
pub enum SessionType {
    /// The remote peer connected to one of our listeners.
    Inbound,
    /// We dialed the remote peer.
    Outbound,
}

/// A TCP endpoint, held as plain values so contracts can speak of it.
#[derive(Clone, Copy, Debug, PartialEq, Eq, Hash, Structural)]
pub struct NetAddr {
    /// Host address.
    pub ip: u32,
    /// TCP port.
    pub port: u16,
}

/// Opaque identity bytes produced by the authenticated handshake; at most one
/// live session per public key.
#[derive(Debug)]
pub struct PublicKey {
    /// Raw key material.
    pub bytes: Vec<u8>,
}

impl View for PublicKey {
    type V = Seq<u8>;

    open spec fn view(&self) -> Seq<u8> {
        self.bytes@
    }
}

impl PublicKey {
    /// A copy of the key, byte for byte.
    pub fn duplicate(&self) -> (r: PublicKey)
        ensures
            r@ == self@,
    {
        let mut bytes: Vec<u8> = Vec::new();
        let mut i: usize = 0;
        while i < self.bytes.len()
            invariant
                i <= self.bytes.len(),
                bytes@ == self.bytes@.take(i as int),
            decreases self.bytes.len() - i,
        {
            bytes.push(self.bytes[i]);
            i = i + 1;
            proof {
                assert(bytes@ =~= self.bytes@.take(i as int));
            }
        }
        proof {
            assert(bytes@ =~= self.bytes@);
        }
        PublicKey { bytes }
    }

    /// Whether two keys hold the same bytes.
    pub fn same_key(&self, other: &PublicKey) -> (r: bool)
        ensures
            r == (self@ == other@),
    {
        if self.bytes.len() != other.bytes.len() {
            return false;
        }
        let mut i: usize = 0;
        while i < self.bytes.len()
            invariant
                i <= self.bytes.len(),
                self.bytes@.len() == other.bytes@.len(),
                forall|j: int| 0 <= j < i ==> self.bytes@[j] == other.bytes@[j],
            decreases self.bytes.len() - i,
        {
            if self.bytes[i] != other.bytes[i] {
                return false;
            }
            i = i + 1;
        }
        proof {
            assert(self.bytes@ =~= other.bytes@);
        }
        true
    }
}

/// A copy of an optional key, byte for byte.
pub fn duplicate_opt_key(key: &Option<PublicKey>) -> (r: Option<PublicKey>)
    ensures
        r is Some <==> key is Some,
        key matches Some(k) ==> (r matches Some(rk) && rk@ == k@),
{
    match key {
        Some(k) => Some(k.duplicate()),
        None => None,
    }
}

/// A transport error, reduced to the value the service logic reads.
#[derive(Clone, Copy, Debug, PartialEq, Eq, Structural)]
pub struct IoError {
    /// Error kind code.
    pub kind: u32,
}

/// Protocol message as handed to handlers and accepted from them.
#[derive(Debug)]
pub struct Message {
    /// Session the message was received from; ignored when sending.
    pub id: SessionId,
    /// Protocol id.
    pub proto_id: ProtocolId,
    /// Data.
    pub data: Vec<u8>,
}

impl Default for Message {
    /// An empty message addressed to no session.
    fn default() -> (r: Self)
        ensures
            r.id == 0,
            r.proto_id == 0,
            r.data@ == Seq::<u8>::empty(),
    {
        Message { id: 0, proto_id: 0, data: Vec::new() }
    }
}

/// Read-only projection of a protocol descriptor, exposed through the
/// service context.
#[derive(Debug)]
pub struct ProtocolInfo {
    /// Protocol name.
    pub name: String,
    /// Versions the protocol supports.
    pub support_versions: Vec<String>,
}

/// Immutable protocol descriptor, fixed at service construction. The frame
/// codec and the handler factories themselves live with the embedding
/// runtime; the service logic only reads which factories are present.
#[derive(Debug)]
pub struct ProtocolMeta {
    /// Unique numeric id.
    pub id: ProtocolId,
    /// Unique textual name.
    pub name: String,
    /// Versions the protocol supports.
    pub support_versions: Vec<String>,
    /// Whether the descriptor provides a global handler factory.
    pub has_global_handle: bool,
    /// Whether the descriptor provides a per-session handler factory.
    pub has_session_handle: bool,
}

} // verus!
