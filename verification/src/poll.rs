//! One iteration of the service event loop. The embedding runtime polls its
//! own connect futures and acceptors and hands the outcomes in as plain
//! values; the service then drains the session-event channel and the
//! service-task channel, dispatching each entry through the transitions of
//! the state machine. The whole iteration is pinned down as a chain of those
//! transitions.

use vstd::prelude::*;

use crate::context::ServiceContext;
use crate::events::{
    Action, DialPoll, ListenPoll, ServiceEvent, ServicePoll, ServiceTask, SessionEvent,
};
use crate::service::{
    handle_service_task_rel, handle_session_event_rel, outbound_result, session_open_rel, Service,
};
use crate::types::{NetAddr, SessionType};

verus! {

/// How the handshake driver reacts to a fresh raw stream: with a key pair
/// configured it asks the runtime to spawn the timed authenticated
/// handshake, whose outcome comes back on the session-event channel; without
/// one it opens the session synchronously with no public key, and settles
/// the outbound counter at once for an outbound stream.
pub open spec fn handshake_rel(
    pre: Service,
    post: Service,
    out: Seq<Action>,
    handle: u64,
    address: NetAddr,
    ty: SessionType,
) -> bool {
    if pre.key_pair {
        &&& post == pre
        &&& out.len() == 1
        &&& (out[0] matches Action::StartHandshake { handle: h, address: a, ty: t } && h == handle
            && a == address && t == ty)
    } else {
        exists|mid: Service|
            {
                &&& #[trigger] session_open_rel(pre, mid, out, handle, None, address, ty)
                &&& post == (Service { task_count: post.task_count, ..mid })
                &&& post.task_count == if ty == SessionType::Outbound {
                    mid.task_count - 1
                } else {
                    mid.task_count as int
                }
            }
    }
}

/// One processed entry of the dial list: a resolved connect goes to the
/// handshake driver, a pending one is kept, a failed one settles the
/// outbound counter and is reported to the service handle.
pub open spec fn dial_entry_rel(
    pre: Service,
    post: Service,
    out: Seq<Action>,
    address: NetAddr,
    outcome: DialPoll,
) -> bool {
    match outcome {
        DialPoll::Ready { handle } => handshake_rel(
            pre,
            post,
            out,
            handle,
            address,
            SessionType::Outbound,
        ),
        DialPoll::Pending => {
            &&& post == (Service { dial: post.dial, ..pre })
            &&& post.dial@ == pre.dial@.push(address)
            &&& out.len() == 0
        },
        DialPoll::Failed { error } => {
            &&& post == (Service { task_count: post.task_count, ..pre })
            &&& post.task_count == pre.task_count - 1
            &&& out.len() == 1
            &&& (out[0] matches Action::ServiceError {
                event: ServiceEvent::DialerError { address: a, error: e },
            } && a == address && e == error)
        },
    }
}

/// One processed entry of the listener list: an accepted connection goes to
/// the handshake driver and the listener is kept; an exhausted accept stream
/// drops the listener; an accept error keeps it and is reported.
pub open spec fn listen_entry_rel(
    pre: Service,
    post: Service,
    out: Seq<Action>,
    address: NetAddr,
    outcome: ListenPoll,
) -> bool {
    match outcome {
        ListenPoll::Accepted { handle } => {
            exists|mid: Service|
                {
                    &&& #[trigger] handshake_rel(pre, mid, out, handle, address, SessionType::Inbound)
                    &&& post == (Service { listens: post.listens, ..mid })
                    &&& post.listens@ == mid.listens@.push(address)
                }
        },
        ListenPoll::Closed => {
            &&& post == pre
            &&& out.len() == 0
        },
        ListenPoll::Pending => {
            &&& post == (Service { listens: post.listens, ..pre })
            &&& post.listens@ == pre.listens@.push(address)
            &&& out.len() == 0
        },
        ListenPoll::Failed { error } => {
            &&& post == (Service { listens: post.listens, ..pre })
            &&& post.listens@ == pre.listens@.push(address)
            &&& out.len() == 1
            &&& (out[0] matches Action::ServiceError {
                event: ServiceEvent::ListenError { address: a, error: e },
            } && a == address && e == error)
        },
    }
}

/// One dispatch of the event loop, tagged by where it came from.
pub enum PollStep {
    /// A polled dial entry.
    DialEntry {
        /// The dialed address.
        address: NetAddr,
        /// What its connect future did.
        connect: DialPoll,
    },
    /// A polled listener entry.
    ListenEntry {
        /// The listener's address.
        address: NetAddr,
        /// What its acceptor did.
        accept: ListenPoll,
    },
    /// One event off the session-event channel.
    Event {
        /// The event.
        event: SessionEvent,
    },
    /// One task off the service-task channel.
    Task {
        /// The task.
        task: ServiceTask,
    },
}

/// How one dispatch changes the service.
pub open spec fn step_rel(pre: Service, post: Service, out: Seq<Action>, step: PollStep) -> bool {
    match step {
        PollStep::DialEntry { address, connect } => dial_entry_rel(pre, post, out, address, connect),
        PollStep::ListenEntry { address, accept } => listen_entry_rel(
            pre,
            post,
            out,
            address,
            accept,
        ),
        PollStep::Event { event } => handle_session_event_rel(pre, post, out, event),
        PollStep::Task { task } => handle_service_task_rel(pre, post, out, task),
    }
}

/// How a sequence of dispatches, run in order, changes the service; the
/// emitted actions are concatenated in the same order.
pub open spec fn steps_rel(
    pre: Service,
    post: Service,
    out: Seq<Action>,
    steps: Seq<PollStep>,
) -> bool
    decreases steps.len(),
{
    if steps.len() == 0 {
        &&& post == pre
        &&& out.len() == 0
    } else {
        exists|mid: Service, cut: int|
            {
                &&& 0 <= cut <= out.len()
                &&& steps_rel(pre, mid, out.take(cut), steps.drop_last())
                &&& #[trigger] step_rel(mid, post, out.skip(cut), steps.last())
            }
    }
}

/// A chain of dispatches grows at the back: running `steps` and then one
/// more dispatch is running `steps.push(step)`.
pub proof fn lemma_steps_rel_snoc(
    pre: Service,
    mid: Service,
    post: Service,
    out1: Seq<Action>,
    out2: Seq<Action>,
    steps: Seq<PollStep>,
    step: PollStep,
)
    requires
        steps_rel(pre, mid, out1, steps),
        step_rel(mid, post, out2, step),
    ensures
        steps_rel(pre, post, out1 + out2, steps.push(step)),
{
    let goal_steps = steps.push(step);
    let total = out1 + out2;
    let cut = out1.len() as int;
    assert(goal_steps.len() == steps.len() + 1);
    assert(goal_steps.drop_last() =~= steps);
    assert(goal_steps.last() == step);
    assert(total.take(cut) =~= out1);
    assert(total.skip(cut) =~= out2);
    assert(steps_rel(pre, mid, total.take(cut), goal_steps.drop_last()));
    assert(step_rel(mid, post, total.skip(cut), goal_steps.last()));
    assert(steps_rel(pre, post, total, goal_steps));
}

/// The dial-phase dispatches: one per in-flight dial, in list order, paired
/// with its poll outcome.
pub open spec fn dial_steps(addrs: Seq<NetAddr>, outcomes: Seq<DialPoll>) -> Seq<PollStep> {
    Seq::new(outcomes.len(), |i: int| PollStep::DialEntry { address: addrs[i], connect: outcomes[i] })
}

/// The listen-phase dispatches: one per listener, in list order, paired with
/// its poll outcome.
pub open spec fn listen_steps(addrs: Seq<NetAddr>, outcomes: Seq<ListenPoll>) -> Seq<PollStep> {
    Seq::new(
        outcomes.len(),
        |i: int| PollStep::ListenEntry { address: addrs[i], accept: outcomes[i] },
    )
}

/// The event-drain dispatches: every queued session event, oldest first.
pub open spec fn event_steps(events: Seq<SessionEvent>) -> Seq<PollStep> {
    events.map_values(|e: SessionEvent| PollStep::Event { event: e })
}

/// The task-drain dispatches: every queued service task, oldest first.
pub open spec fn task_steps(tasks: Seq<ServiceTask>) -> Seq<PollStep> {
    tasks.map_values(|t: ServiceTask| PollStep::Task { task: t })
}

/// Number of queued events that report an outbound handshake outcome; each
/// one settles one unit of the outbound-activity counter.
pub open spec fn outbound_results_count(events: Seq<SessionEvent>) -> int
    decreases events.len(),
{
    if events.len() == 0 {
        0
    } else {
        (if outbound_result(events.first()) {
            1int
        } else {
            0
        }) + outbound_results_count(events.drop_first())
    }
}

/// The in-flight dial list has been taken out for processing.
pub open spec fn dials_taken(s: Service) -> bool {
    s.dial@.len() == 0
}

/// The listener list has been taken out for processing.
pub open spec fn listens_taken(s: Service) -> bool {
    s.listens@.len() == 0
}

/// The session-event channel has been drained.
pub open spec fn events_taken(s: Service) -> bool {
    s.session_event_queue.items@.len() == 0
}

/// The service-task channel has been drained.
pub open spec fn tasks_taken(s: Service) -> bool {
    s.service_context.service_task_sender.items@.len() == 0
}

/// The context of `post` snapshots the listen addresses of `mid`.
pub open spec fn listen_snapshot(post: Service, mid: Service) -> bool {
    post.service_context.listens@ == mid.listens@
}

/// How polling the dialers changes the service: starting from the state with
/// the dial list taken out, every former entry is dispatched in order.
pub open spec fn client_poll_rel(
    pre: Service,
    post: Service,
    out: Seq<Action>,
    outcomes: Seq<DialPoll>,
) -> bool {
    exists|start: Service|
        {
            &&& #[trigger] dials_taken(start)
            &&& start == (Service { dial: start.dial, ..pre })
            &&& steps_rel(start, post, out, dial_steps(pre.dial@, outcomes))
        }
}

/// How polling the listeners changes the service: starting from the state
/// with the listener list taken out, every former entry is dispatched in
/// order; afterwards the context's listen snapshot is refreshed to the
/// addresses of the still-live listeners.
pub open spec fn listen_poll_rel(
    pre: Service,
    post: Service,
    out: Seq<Action>,
    outcomes: Seq<ListenPoll>,
) -> bool {
    exists|start: Service, mid: Service|
        {
            &&& #[trigger] listens_taken(start)
            &&& #[trigger] listen_snapshot(post, mid)
            &&& start == (Service { listens: start.listens, ..pre })
            &&& steps_rel(start, mid, out, listen_steps(pre.listens@, outcomes))
            &&& post == (Service { service_context: post.service_context, ..mid })
            &&& post.service_context == (ServiceContext {
                listens: post.service_context.listens,
                ..mid.service_context
            })
        }
}

/// How draining the session-event channel changes the service: the channel
/// is emptied and every event it held is dispatched in order.
pub open spec fn drain_events_rel(pre: Service, post: Service, out: Seq<Action>) -> bool {
    exists|start: Service|
        {
            &&& #[trigger] events_taken(start)
            &&& start == (Service { session_event_queue: start.session_event_queue, ..pre })
            &&& start.session_event_queue.cap == pre.session_event_queue.cap
            &&& steps_rel(start, post, out, event_steps(pre.session_event_queue.items@))
        }
}

/// How draining the service-task channel changes the service: the channel is
/// emptied and every task it held is dispatched in order.
pub open spec fn drain_tasks_rel(pre: Service, post: Service, out: Seq<Action>) -> bool {
    exists|start: Service|
        {
            &&& #[trigger] tasks_taken(start)
            &&& start == (Service { service_context: start.service_context, ..pre })
            &&& start.service_context == (ServiceContext {
                service_task_sender: start.service_context.service_task_sender,
                ..pre.service_context
            })
            &&& start.service_context.service_task_sender.cap
                == pre.service_context.service_task_sender.cap
            &&& steps_rel(
                start,
                post,
                out,
                task_steps(pre.service_context.service_task_sender.items@),
            )
        }
}

/// One full event-loop iteration on a service that has not terminated, in
/// the fixed order: dialers, listeners, session-event drain, service-task
/// drain; the emitted actions are concatenated in that order.
pub open spec fn poll_rel(
    pre: Service,
    post: Service,
    out: Seq<Action>,
    dial_outcomes: Seq<DialPoll>,
    listen_outcomes: Seq<ListenPoll>,
) -> bool {
    exists|
        s1: Service,
        s2: Service,
        s3: Service,
        o1: Seq<Action>,
        o2: Seq<Action>,
        o3: Seq<Action>,
        o4: Seq<Action>,
    |
        #![trigger client_poll_rel(pre, s1, o1, dial_outcomes), listen_poll_rel(s1, s2, o2, listen_outcomes), drain_events_rel(s2, s3, o3), drain_tasks_rel(s3, post, o4)]
        {
            &&& client_poll_rel(pre, s1, o1, dial_outcomes)
            &&& listen_poll_rel(s1, s2, o2, listen_outcomes)
            &&& drain_events_rel(s2, s3, o3)
            &&& drain_tasks_rel(s3, post, o4)
            &&& out == o1 + o2 + o3 + o4
        }
}

/// Every count of outbound results is non-negative.
pub proof fn lemma_outbound_count_nonneg(events: Seq<SessionEvent>)
    ensures
        outbound_results_count(events) >= 0,
    decreases events.len(),
{
    if events.len() > 0 {
        lemma_outbound_count_nonneg(events.drop_first());
    }
}

impl Service {
    /// Hands a fresh raw stream to the handshake driver: with a key pair
    /// configured the runtime spawns the timed authenticated handshake; else
    /// the session opens synchronously without a public key, and an outbound
    /// stream settles one unit of the outbound counter at once.
    pub(crate) fn handshake(&mut self, handle: u64, address: NetAddr, ty: SessionType) -> (out:
        Vec<Action>)
        requires
            old(self).wf(),
            old(self).next_session < u64::MAX,
            (!old(self).key_pair && ty == SessionType::Outbound) ==> old(self).task_count > old(
                self,
            ).dial@.len(),
        ensures
            final(self).wf(),
            handshake_rel(*old(self), *final(self), out@, handle, address, ty),
            final(self).next_session <= old(self).next_session + 1,
            final(self).dial == old(self).dial,
            final(self).listens == old(self).listens,
            final(self).session_event_queue == old(self).session_event_queue,
            final(self).service_context == old(self).service_context,
            final(self).task_count <= old(self).task_count,
            final(self).task_count + 1 >= old(self).task_count,
            final(self).protocol_configs == old(self).protocol_configs,
            final(self).key_pair == old(self).key_pair,
    {
        if self.key_pair {
            let mut out: Vec<Action> = Vec::new();
            out.push(Action::StartHandshake { handle, address, ty });
            out
        } else {
            let out = self.session_open(handle, None, address, ty);
            let ghost mid = *self;
            if ty == SessionType::Outbound {
                self.task_count = self.task_count - 1;
            }
            proof {
                assert(session_open_rel(*old(self), mid, out@, handle, None, address, ty));
            }
            out
        }
    }

    /// Polls every pending outbound connect once, with the outcomes the
    /// embedding runtime observed, in list order: a resolved connect goes to
    /// the handshake driver and leaves the list, a pending one stays, a
    /// failed one settles the outbound counter and is reported to the
    /// service handle.
    pub fn client_poll(&mut self, outcomes: &Vec<DialPoll>) -> (out: Vec<Action>)
        requires
            old(self).wf(),
            outcomes@.len() == old(self).dial@.len(),
            old(self).next_session + old(self).dial@.len() <= u64::MAX,
        ensures
            final(self).wf(),
            client_poll_rel(*old(self), *final(self), out@, outcomes@),
            final(self).next_session <= old(self).next_session + old(self).dial@.len(),
            final(self).task_count <= old(self).task_count,
            final(self).task_count + old(self).dial@.len() >= old(self).task_count + final(self).dial@.len(),
            final(self).dial@.len() <= old(self).dial@.len(),
            final(self).listens == old(self).listens,
            final(self).session_event_queue == old(self).session_event_queue,
            final(self).service_context == old(self).service_context,
            final(self).protocol_configs == old(self).protocol_configs,
            final(self).key_pair == old(self).key_pair,
    {
        let ghost pre = *old(self);
        let mut entries: Vec<NetAddr> = Vec::new();
        std::mem::swap(&mut entries, &mut self.dial);
        let ghost start = *self;
        let mut out: Vec<Action> = Vec::new();
        let n = entries.len();
        let mut i: usize = 0;
        while i < n
            invariant
                i <= n,
                n == entries@.len(),
                n == outcomes@.len(),
                entries@ == pre.dial@,
                start == (Service { dial: start.dial, ..pre }),
                start.dial@.len() == 0,
                start.task_count == pre.task_count,
                start.next_session == pre.next_session,
                pre.wf(),
                pre.next_session + n <= u64::MAX,
                pre.task_count >= n,
                self.wf(),
                steps_rel(
                    start,
                    *self,
                    out@,
                    dial_steps(entries@.take(i as int), outcomes@.take(i as int)),
                ),
                self.next_session <= pre.next_session + i,
                self.task_count <= pre.task_count,
                self.task_count + i >= pre.task_count + self.dial@.len(),
                self.dial@.len() <= i,
                forall|a: int|
                    0 <= a < self.dial@.len() ==> exists|w: int|
                        0 <= w < i && entries@[w] == #[trigger] self.dial@[a],
                self.listens == pre.listens,
                self.session_event_queue == pre.session_event_queue,
                self.service_context == pre.service_context,
                self.protocol_configs == pre.protocol_configs,
                self.key_pair == pre.key_pair,
            decreases n - i,
        {
            let ghost prev = *self;
            let ghost prev_out = out@;
            let ghost step = PollStep::DialEntry {
                address: entries@[i as int],
                connect: outcomes@[i as int],
            };
            let ghost mut block: Seq<Action> = Seq::empty();
            let address = entries[i];
            match outcomes[i] {
                DialPoll::Ready { handle } => {
                    let mut acts = self.handshake(handle, address, SessionType::Outbound);
                    proof {
                        block = acts@;
                    }
                    out.append(&mut acts);
                },
                DialPoll::Pending => {
                    self.dial.push(address);
                    proof {
                        assert forall|a: int, b: int|
                            0 <= a < b < self.dial@.len() implies self.dial@[a]
                            != self.dial@[b] by {
                            if b == self.dial@.len() - 1 {
                                let w = choose|w: int|
                                    0 <= w < i && entries@[w] == #[trigger] prev.dial@[a];
                                assert(self.dial@[a] == entries@[w]);
                                assert(self.dial@[b] == entries@[i as int]);
                            } else {
                                let wa = choose|w: int|
                                    0 <= w < i && entries@[w] == #[trigger] prev.dial@[a];
                                let wb = choose|w: int|
                                    0 <= w < i && entries@[w] == #[trigger] prev.dial@[b];
                                assert(prev.dial@[a] != prev.dial@[b]);
                            }
                        }
                        assert(self.wf());
                        assert forall|a: int|
                            0 <= a < self.dial@.len() implies exists|w: int|
                            0 <= w < i + 1 && entries@[w] == #[trigger] self.dial@[a] by {
                            if a < self.dial@.len() - 1 {
                                let w = choose|w: int|
                                    0 <= w < i && entries@[w] == #[trigger] prev.dial@[a];
                                assert(0 <= w < i + 1 && entries@[w] == self.dial@[a]);
                            } else {
                                assert(entries@[i as int] == self.dial@[a]);
                            }
                        }
                    }
                },
                DialPoll::Failed { error } => {
                    proof {
                        assert(self.task_count >= 1);
                    }
                    self.task_count = self.task_count - 1;
                    out.push(
                        Action::ServiceError {
                            event: ServiceEvent::DialerError { address, error },
                        },
                    );
                    proof {
                        block = seq![
                            Action::ServiceError {
                                event: ServiceEvent::DialerError { address, error },
                            },
                        ];
                    }
                },
            }
            proof {
                assert(out@ == prev_out + block) by {
                    assert(out@ =~= prev_out + block);
                }
                assert(step_rel(prev, *self, block, step));
                lemma_steps_rel_snoc(
                    start,
                    prev,
                    *self,
                    prev_out,
                    block,
                    dial_steps(entries@.take(i as int), outcomes@.take(i as int)),
                    step,
                );
                assert(dial_steps(entries@.take(i + 1 as int), outcomes@.take(i + 1 as int))
                    =~= dial_steps(entries@.take(i as int), outcomes@.take(i as int)).push(step));
            }
            i = i + 1;
        }
        proof {
            assert(entries@.take(n as int) =~= entries@);
            assert(outcomes@.take(n as int) =~= outcomes@);
            assert(dials_taken(start));
            assert(client_poll_rel(pre, *self, out@, outcomes@));
        }
        out
    }

    /// Polls every listener once, with the outcomes the embedding runtime
    /// observed, in list order: an accepted connection goes to the handshake
    /// driver and the listener stays; an exhausted acceptor is dropped; an
    /// accept error keeps the listener and is reported. Afterwards the
    /// context's listen snapshot is refreshed.
    pub fn listen_poll(&mut self, outcomes: &Vec<ListenPoll>) -> (out: Vec<Action>)
        requires
            old(self).wf(),
            outcomes@.len() == old(self).listens@.len(),
            old(self).next_session + old(self).listens@.len() <= u64::MAX,
        ensures
            final(self).wf(),
            listen_poll_rel(*old(self), *final(self), out@, outcomes@),
            final(self).next_session <= old(self).next_session + old(self).listens@.len(),
            final(self).task_count == old(self).task_count,
            final(self).dial == old(self).dial,
            final(self).listens@.len() <= old(self).listens@.len(),
            final(self).session_event_queue == old(self).session_event_queue,
            final(self).service_context.service_task_sender == old(self).service_context.service_task_sender,
            final(self).service_context.proto_infos == old(self).service_context.proto_infos,
            final(self).protocol_configs == old(self).protocol_configs,
            final(self).key_pair == old(self).key_pair,
    {
        let ghost pre = *old(self);
        let mut entries: Vec<NetAddr> = Vec::new();
        std::mem::swap(&mut entries, &mut self.listens);
        let ghost start = *self;
        let mut out: Vec<Action> = Vec::new();
        let n = entries.len();
        let mut i: usize = 0;
        while i < n
            invariant
                i <= n,
                n == entries@.len(),
                n == outcomes@.len(),
                entries@ == pre.listens@,
                start == (Service { listens: start.listens, ..pre }),
                start.listens@.len() == 0,
                start.next_session == pre.next_session,
                pre.wf(),
                pre.next_session + n <= u64::MAX,
                self.wf(),
                steps_rel(
                    start,
                    *self,
                    out@,
                    listen_steps(entries@.take(i as int), outcomes@.take(i as int)),
                ),
                self.next_session <= pre.next_session + i,
                self.task_count == pre.task_count,
                self.dial == pre.dial,
                self.listens@.len() <= i,
                self.session_event_queue == pre.session_event_queue,
                self.service_context == pre.service_context,
                self.protocol_configs == pre.protocol_configs,
                self.key_pair == pre.key_pair,
            decreases n - i,
        {
            let ghost prev = *self;
            let ghost prev_out = out@;
            let ghost step = PollStep::ListenEntry {
                address: entries@[i as int],
                accept: outcomes@[i as int],
            };
            let ghost mut block: Seq<Action> = Seq::empty();
            let address = entries[i];
            match outcomes[i] {
                ListenPoll::Accepted { handle } => {
                    let mut acts = self.handshake(handle, address, SessionType::Inbound);
                    proof {
                        block = acts@;
                    }
                    let ghost hs_mid = *self;
                    self.listens.push(address);
                    out.append(&mut acts);
                    proof {
                        assert(handshake_rel(prev, hs_mid, block, handle, address, SessionType::Inbound));
                    }
                },
                ListenPoll::Closed => {},
                ListenPoll::Pending => {
                    self.listens.push(address);
                },
                ListenPoll::Failed { error } => {
                    self.listens.push(address);
                    out.push(
                        Action::ServiceError {
                            event: ServiceEvent::ListenError { address, error },
                        },
                    );
                    proof {
                        block = seq![
                            Action::ServiceError {
                                event: ServiceEvent::ListenError { address, error },
                            },
                        ];
                    }
                },
            }
            proof {
                assert(out@ == prev_out + block) by {
                    assert(out@ =~= prev_out + block);
                }
                assert(step_rel(prev, *self, block, step));
                lemma_steps_rel_snoc(
                    start,
                    prev,
                    *self,
                    prev_out,
                    block,
                    listen_steps(entries@.take(i as int), outcomes@.take(i as int)),
                    step,
                );
                assert(listen_steps(entries@.take(i + 1 as int), outcomes@.take(i + 1 as int))
                    =~= listen_steps(entries@.take(i as int), outcomes@.take(i as int)).push(step));
            }
            i = i + 1;
        }
        let addrs = copy_addrs(&self.listens);
        let ghost mid = *self;
        self.service_context.update_listens(addrs);
        proof {
            assert(entries@.take(n as int) =~= entries@);
            assert(outcomes@.take(n as int) =~= outcomes@);
            assert(listens_taken(start));
            assert(listen_snapshot(*self, mid));
            assert(listen_poll_rel(pre, *self, out@, outcomes@));
        }
        out
    }

    /// One iteration of the event loop, in the fixed order: termination
    /// check, dialer poll, listener poll, session-event drain, service-task
    /// drain, termination re-check. Returns whether the service has
    /// terminated, with the actions the runtime must perform in order. The
    /// arithmetic bounds in the preconditions reflect that every in-flight
    /// outbound connect and every queued outbound handshake outcome was
    /// counted once in `task_count`, and that session ids and the counter
    /// stay within their machine types.
    pub fn poll(&mut self, dial_outcomes: &Vec<DialPoll>, listen_outcomes: &Vec<ListenPoll>) -> (r:
        (ServicePoll, Vec<Action>))
        requires
            old(self).wf(),
            dial_outcomes@.len() == old(self).dial@.len(),
            listen_outcomes@.len() == old(self).listens@.len(),
            old(self).next_session + old(self).dial@.len() + old(self).listens@.len()
                + old(self).session_event_queue.items@.len() <= u64::MAX,
            old(self).task_count >= old(self).dial@.len() + outbound_results_count(
                old(self).session_event_queue.items@,
            ),
            old(self).task_count + old(self).service_context.service_task_sender.items@.len()
                <= usize::MAX,
        ensures
            final(self).wf(),
            old(self).is_terminal() ==> (*final(self) == *old(self) && r.1@.len() == 0 && r.0
                == ServicePoll::Complete),
            (r.0 == ServicePoll::Complete) <==> final(self).is_terminal(),
            !old(self).is_terminal() ==> (final(self).session_event_queue.items@.len() == 0
                && final(self).service_context.service_task_sender.items@.len() == 0 && poll_rel(
                *old(self),
                *final(self),
                r.1@,
                dial_outcomes@,
                listen_outcomes@,
            )),
    {
        if self.listens.len() == 0 && self.task_count == 0 && self.sessions.len() == 0 {
            return (ServicePoll::Complete, Vec::new());
        }
        let ghost pre = *old(self);
        let mut out = self.client_poll(dial_outcomes);
        let ghost s1 = *self;
        let ghost o1 = out@;
        let mut acts2 = self.listen_poll(listen_outcomes);
        let ghost s2 = *self;
        let ghost o2 = acts2@;
        out.append(&mut acts2);

        // Drain the session-event channel.
        let mut events: Vec<SessionEvent> = Vec::new();
        std::mem::swap(&mut events, &mut self.session_event_queue.items);
        let ghost start_e = *self;
        let ghost all_events = events@;
        let ghost base = out@;
        proof {
            lemma_outbound_count_nonneg(all_events);
            assert(s2.task_count >= s2.dial@.len() + outbound_results_count(all_events));
        }
        let ghost mut k: int = 0;
        while events.len() > 0
            invariant
                0 <= k <= all_events.len(),
                events@ == all_events.skip(k),
                start_e.wf(),
                self.wf(),
                steps_rel(
                    start_e,
                    *self,
                    out@.skip(base.len() as int),
                    event_steps(all_events.take(k)),
                ),
                out@.take(base.len() as int) == base,
                base.len() <= out@.len(),
                self.next_session + events@.len() <= u64::MAX,
                self.task_count >= self.dial@.len() + outbound_results_count(events@),
                self.task_count <= start_e.task_count,
                self.session_event_queue == start_e.session_event_queue,
                self.session_event_queue.items@.len() == 0,
                self.service_context == start_e.service_context,
            decreases events@.len(),
        {
            let ghost prev = *self;
            let ghost prev_out = out@;
            let e = events.remove(0);
            proof {
                assert(all_events.skip(k).drop_first() =~= all_events.skip(k + 1));
                assert(e == all_events[k]);
                lemma_outbound_count_nonneg(all_events.skip(k + 1));
            }
            let mut acts = self.handle_session_event(e);
            let ghost block = acts@;
            out.append(&mut acts);
            proof {
                assert(step_rel(prev, *self, block, PollStep::Event { event: e }));
                lemma_steps_rel_snoc(
                    start_e,
                    prev,
                    *self,
                    prev_out.skip(base.len() as int),
                    block,
                    event_steps(all_events.take(k)),
                    PollStep::Event { event: e },
                );
                assert(event_steps(all_events.take(k + 1)) =~= event_steps(all_events.take(k)).push(
                    PollStep::Event { event: e },
                ));
                assert(out@.skip(base.len() as int) =~= prev_out.skip(base.len() as int) + block);
                assert(out@.take(base.len() as int) =~= base);
                k = k + 1;
            }
        }
        let ghost s3 = *self;
        let ghost o3 = out@.skip(base.len() as int);
        proof {
            assert(all_events.take(k) =~= all_events);
        }

        // Drain the service-task channel.
        let mut tasks: Vec<ServiceTask> = Vec::new();
        std::mem::swap(&mut tasks, &mut self.service_context.service_task_sender.items);
        let ghost start_t = *self;
        let ghost all_tasks = tasks@;
        let ghost base2 = out@;
        let ghost mut k2: int = 0;
        while tasks.len() > 0
            invariant
                0 <= k2 <= all_tasks.len(),
                tasks@ == all_tasks.skip(k2),
                start_t.wf(),
                self.wf(),
                steps_rel(
                    start_t,
                    *self,
                    out@.skip(base2.len() as int),
                    task_steps(all_tasks.take(k2)),
                ),
                out@.take(base2.len() as int) == base2,
                base2.len() <= out@.len(),
                self.task_count <= start_t.task_count + k2,
                start_t.task_count + all_tasks.len() <= usize::MAX,
                self.session_event_queue == start_t.session_event_queue,
                self.service_context == start_t.service_context,
                self.service_context.service_task_sender.items@.len() == 0,
            decreases tasks@.len(),
        {
            let ghost prev = *self;
            let ghost prev_out = out@;
            let t = tasks.remove(0);
            proof {
                assert(all_tasks.skip(k2).drop_first() =~= all_tasks.skip(k2 + 1));
                assert(t == all_tasks[k2]);
            }
            let mut acts = self.handle_service_task(t);
            let ghost block = acts@;
            out.append(&mut acts);
            proof {
                assert(step_rel(prev, *self, block, PollStep::Task { task: t }));
                lemma_steps_rel_snoc(
                    start_t,
                    prev,
                    *self,
                    prev_out.skip(base2.len() as int),
                    block,
                    task_steps(all_tasks.take(k2)),
                    PollStep::Task { task: t },
                );
                assert(task_steps(all_tasks.take(k2 + 1)) =~= task_steps(all_tasks.take(k2)).push(
                    PollStep::Task { task: t },
                ));
                assert(out@.skip(base2.len() as int) =~= prev_out.skip(base2.len() as int) + block);
                assert(out@.take(base2.len() as int) =~= base2);
                k2 = k2 + 1;
            }
        }
        proof {
            assert(all_tasks.take(k2) =~= all_tasks);
            let o4 = out@.skip(base2.len() as int);
            assert(events_taken(start_e));
            assert(drain_events_rel(s2, s3, o3));
            assert(tasks_taken(start_t));
            assert(drain_tasks_rel(s3, *self, o4));
            assert(base == o1 + o2);
            assert(base2 == base + o3) by {
                assert(base2 =~= base + o3);
            }
            assert(out@ == base2 + o4) by {
                assert(out@ =~= base2 + o4);
            }
            assert(out@ == o1 + o2 + o3 + o4) by {
                assert(out@ =~= o1 + o2 + o3 + o4);
            }
            assert(poll_rel(pre, *self, out@, dial_outcomes@, listen_outcomes@));
        }

        // Double check service state.
        if self.listens.len() == 0 && self.task_count == 0 && self.sessions.len() == 0 {
            (ServicePoll::Complete, out)
        } else {
            (ServicePoll::NotReady, out)
        }
    }
}

/// A copy of an address list, element for element.
pub(crate) fn copy_addrs(v: &Vec<NetAddr>) -> (r: Vec<NetAddr>)
    ensures
        r@ == v@,
{
    let mut r: Vec<NetAddr> = Vec::new();
    let mut i: usize = 0;
    while i < v.len()
        invariant
            i <= v@.len(),
            r@ == v@.take(i as int),
        decreases v@.len() - i,
    {
        r.push(v[i]);
        i = i + 1;
        proof {
            assert(r@ =~= v@.take(i as int));
        }
    }
    proof {
        assert(r@ =~= v@);
    }
    r
}

} // verus!
