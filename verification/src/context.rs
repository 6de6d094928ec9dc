//! Handle passed into user callbacks. It lets handlers re-enter the service
//! without re-entrant locking: every operation enqueues a task on the
//! service-task channel, and the event loop applies it in its next drain.

use vstd::prelude::*;

use crate::buffer::BoundedQueue;
use crate::events::ServiceTask;
use crate::types::{Message, NetAddr, ProtocolId, ProtocolInfo, SessionId, CHANNEL_SIZE};

verus! {

/// The sending side of the service-task channel together with the read-only
/// views the service exposes to handlers.
#[derive(Debug)]
pub struct ServiceContext {
    /// The service-task channel; sends are try-send, dropped when full.
    pub service_task_sender: BoundedQueue<ServiceTask>,
    /// Read-only protocol table, fixed at construction.
    pub proto_infos: Vec<(ProtocolId, ProtocolInfo)>,
    /// Addresses of the still-live listeners, refreshed once per iteration.
    pub listens: Vec<NetAddr>,
}

/// How one try-send of `task` changes a context: the table and the listen
/// snapshot stay, and the queue grows by `task` exactly when it has room.
pub open spec fn task_sent(pre: ServiceContext, post: ServiceContext, task: ServiceTask) -> bool {
    &&& post.proto_infos == pre.proto_infos
    &&& post.listens == pre.listens
    &&& post.service_task_sender.cap == pre.service_task_sender.cap
    &&& if pre.service_task_sender.items@.len() < pre.service_task_sender.cap {
        post.service_task_sender.items@ == pre.service_task_sender.items@.push(task)
    } else {
        post.service_task_sender.items@ == pre.service_task_sender.items@
    }
}

impl ServiceContext {
    /// The channel is bounded and within bounds.
    pub open spec fn wf(self) -> bool {
        &&& self.service_task_sender.wf()
        &&& self.service_task_sender.cap == CHANNEL_SIZE
    }

    /// A fresh context over an empty task channel of the fixed capacity.
    pub(crate) fn new(proto_infos: Vec<(ProtocolId, ProtocolInfo)>) -> (r: Self)
        ensures
            r.wf(),
            r.service_task_sender.items@ == Seq::<ServiceTask>::empty(),
            r.proto_infos == proto_infos,
            r.listens@ == Seq::<NetAddr>::empty(),
    {
        ServiceContext {
            service_task_sender: BoundedQueue::new(CHANNEL_SIZE),
            proto_infos,
            listens: Vec::new(),
        }
    }

    /// Initiate a connection request to an address.
    pub fn dial(&mut self, address: NetAddr)
        requires
            old(self).wf(),
        ensures
            final(self).wf(),
            task_sent(*old(self), *final(self), ServiceTask::Dial { address }),
    {
        self.send(ServiceTask::Dial { address });
    }

    /// Disconnect a session.
    pub fn disconnect(&mut self, id: SessionId)
        requires
            old(self).wf(),
        ensures
            final(self).wf(),
            task_sent(*old(self), *final(self), ServiceTask::Disconnect { id }),
    {
        self.send(ServiceTask::Disconnect { id });
    }

    /// Send a message to the given sessions, or to all when `ids` is `None`.
    pub fn send_message(&mut self, ids: Option<Vec<SessionId>>, message: Message)
        requires
            old(self).wf(),
        ensures
            final(self).wf(),
            task_sent(
                *old(self),
                *final(self),
                ServiceTask::ProtocolMessage { ids, message },
            ),
    {
        self.send(ServiceTask::ProtocolMessage { ids, message });
    }

    /// Schedule a user future, named by a token the embedding runtime
    /// resolves, to be spawned on the executor.
    pub fn future_task(&mut self, task: u64)
        requires
            old(self).wf(),
        ensures
            final(self).wf(),
            task_sent(*old(self), *final(self), ServiceTask::FutureTask { task }),
    {
        self.send(ServiceTask::FutureTask { task });
    }

    /// The sending side of the task channel itself.
    pub fn sender(&mut self) -> (r: &mut BoundedQueue<ServiceTask>)
        ensures
            *r == old(self).service_task_sender,
            final(self).service_task_sender == *final(r),
            final(self).proto_infos == old(self).proto_infos,
            final(self).listens == old(self).listens,
    {
        &mut self.service_task_sender
    }

    /// The protocol table: id, name and supported versions of each
    /// registered protocol; read-only.
    pub fn protocols(&self) -> (r: &Vec<(ProtocolId, ProtocolInfo)>)
        ensures
            *r == self.proto_infos,
    {
        &self.proto_infos
    }

    /// The current listen address list; read-only.
    pub fn listens(&self) -> (r: &Vec<NetAddr>)
        ensures
            *r == self.listens,
    {
        &self.listens
    }

    /// Real send function: try-send, dropped silently when the queue is full.
    fn send(&mut self, event: ServiceTask)
        requires
            old(self).wf(),
        ensures
            final(self).wf(),
            task_sent(*old(self), *final(self), event),
    {
        let _ = self.service_task_sender.try_send(event);
    }

    /// Update the listen snapshot.
    pub(crate) fn update_listens(&mut self, address_list: Vec<NetAddr>)
        ensures
            final(self).listens == address_list,
            final(self).proto_infos == old(self).proto_infos,
            final(self).service_task_sender == old(self).service_task_sender,
    {
        self.listens = address_list;
    }
}

} // verus!
