//! The two capability sets user code implements: the service handle, which
//! sees service-level events and errors, and the protocol handle, which sees
//! one protocol's lifecycle. The embedding runtime owns the instances and
//! calls them as the actions emitted by the service direct; all calls run
//! inline on the event loop and must not block — long work belongs in a
//! future task.

use vstd::prelude::*;

use crate::context::ServiceContext;
use crate::events::ServiceEvent;
use crate::types::{Message, NetAddr, PublicKey, SessionId, SessionType};

verus! {

/// Service handle: the handle that exists from service creation. It is told
/// about runtime errors, and about session establishment and disconnection.
pub trait ServiceHandle {
    /// Handling runtime errors.
    fn handle_error(&mut self, control: &mut ServiceContext, error: ServiceEvent);

    /// Handling session establishment and disconnection events.
    fn handle_event(&mut self, control: &mut ServiceContext, event: ServiceEvent);
}

/// Protocol handle: the behavior of one custom protocol in each state. A
/// global handle is created once and keeps state across sessions; a
/// per-session handle lives from protocol open to protocol close within one
/// session.
pub trait ProtocolHandle {
    /// Called when the protocol is opened: once ever for a global handle,
    /// once per opening for a per-session handle.
    fn init(&mut self, control: &mut ServiceContext);

    /// Called when a message of the protocol is received.
    fn received(&mut self, control: &mut ServiceContext, data: Message);

    /// Called when the protocol opens in a session.
    fn connected(
        &mut self,
        control: &mut ServiceContext,
        session_id: SessionId,
        address: NetAddr,
        ty: SessionType,
        remote_public_key: &Option<PublicKey>,
        version: &str,
    );

    /// Called when the protocol closes in a session.
    fn disconnected(&mut self, control: &mut ServiceContext, session_id: SessionId);

    /// Called when the service receives a notify task for this handle.
    fn notify(&mut self, control: &mut ServiceContext, token: u64);
}

} // verus!
