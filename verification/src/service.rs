//! The service state machine: dial/listen/handshake/session-open/session-close
//! coordination, per-stream event routing to the two handler tiers, the
//! outbound command channel, and the termination condition of the loop.
//!
//! Transport, cryptography and the executor belong to an embedding runtime.
//! Each transition here takes plain values (poll outcomes, queued events) and
//! returns the ordered list of [`Action`]s the runtime must perform; the
//! contracts pin down both the new state and that list.

use vstd::prelude::*;

use crate::buffer::BoundedQueue;
use crate::context::ServiceContext;
use crate::events::{Action, ServiceEvent, ServiceTask, SessionEvent};
use crate::payload::{bytes_clone, bytes_from_vec, bytes_to_vec, bytes_view};
use crate::types::{
    duplicate_opt_key, Message, NetAddr, ProtocolId, ProtocolInfo, ProtocolMeta, PublicKey,
    SessionId, SessionType, CHANNEL_SIZE,
};

verus! {

/// One live session as the service tracks it: its id and the sending side of
/// its command channel.
#[derive(Debug)]
pub struct SessionRecord {
    /// Session id.
    pub id: SessionId,
    /// Outbound command channel to the session; sends are try-send.
    pub sender: BoundedQueue<SessionEvent>,
}

/// One entry of the per-session handler registry: protocol `proto_id` is open
/// in session `id`, with or without a per-session handler. The entry exists
/// even without a handler so close-time accounting knows the protocol was
/// open.
#[derive(Clone, Copy, Debug, PartialEq, Eq, Structural)]
pub struct SessionProtoEntry {
    /// Session id.
    pub id: SessionId,
    /// Protocol id.
    pub proto_id: ProtocolId,
    /// Whether a per-session handler was instantiated for this entry.
    pub has_handle: bool,
}

/// The protocol descriptor set is valid: numeric ids and textual names are
/// unique.
pub open spec fn configs_wf(configs: Seq<ProtocolMeta>) -> bool {
    &&& forall|i: int, j: int|
        0 <= i < j < configs.len() ==> (#[trigger] configs[i]).id != (#[trigger] configs[j]).id
    &&& forall|i: int, j: int|
        0 <= i < j < configs.len() ==> (#[trigger] configs[i]).name@ != (#[trigger] configs[j]).name@
}

/// The read-only protocol table is the projection of the descriptor set:
/// same ids, names and version lists, in order.
pub open spec fn infos_match(
    configs: Seq<ProtocolMeta>,
    infos: Seq<(ProtocolId, ProtocolInfo)>,
) -> bool {
    &&& infos.len() == configs.len()
    &&& forall|i: int|
        0 <= i < configs.len() ==> {
            &&& (#[trigger] infos[i]).0 == configs[i].id
            &&& infos[i].1.name@ == configs[i].name@
            &&& infos[i].1.support_versions.deep_view() == configs[i].support_versions.deep_view()
        }
}

/// An abstraction of a p2p service, currently only supporting TCP.
#[derive(Debug)]
pub struct Service {
    /// Immutable protocol descriptor set, fixed at construction.
    pub protocol_configs: Vec<ProtocolMeta>,
    /// Session registry: id and command channel of every live session.
    pub sessions: Vec<SessionRecord>,
    /// Addresses of the bound listeners.
    pub listens: Vec<NetAddr>,
    /// Addresses of the in-flight outbound connects.
    pub dial: Vec<NetAddr>,
    /// Number of connection requests that still need to resolve externally;
    /// initialised to 1 in run-forever mode, else 0.
    pub task_count: usize,
    /// Last allocated session id; ids are never reused.
    pub next_session: SessionId,
    /// Whether a local identity key pair is configured; without one the
    /// handshake is bypassed.
    pub key_pair: bool,
    /// Public-key deduplication map: at most one live session per key.
    pub remote_pubkeys: Vec<(SessionId, PublicKey)>,
    /// Protocols whose global handler has been instantiated; an entry
    /// persists until service shutdown.
    pub proto_handles: Vec<ProtocolId>,
    /// Per-session handler registry.
    pub proto_session_handles: Vec<SessionProtoEntry>,
    /// The session-event channel: sessions and handshake tasks push here,
    /// the event loop drains it.
    pub session_event_queue: BoundedQueue<SessionEvent>,
    /// External tasks are passed in from this; also handed to callbacks.
    pub service_context: ServiceContext,
}

impl Service {
    /// Internal invariant of the service state.
    pub open spec fn wf(self) -> bool {
        &&& configs_wf(self.protocol_configs@)
        &&& infos_match(self.protocol_configs@, self.service_context.proto_infos@)
        &&& forall|i: int, j: int|
            0 <= i < j < self.sessions@.len() ==> (#[trigger] self.sessions@[i]).id != (
            #[trigger] self.sessions@[j]).id
        &&& forall|i: int|
            0 <= i < self.sessions@.len() ==> (#[trigger] self.sessions@[i]).sender.wf()
        &&& forall|i: int|
            0 <= i < self.sessions@.len() ==> (#[trigger] self.sessions@[i]).sender.cap
                == CHANNEL_SIZE
        &&& forall|i: int|
            0 <= i < self.sessions@.len() ==> 1 <= (#[trigger] self.sessions@[i]).id
                <= self.next_session
        &&& forall|i: int, j: int|
            0 <= i < j < self.remote_pubkeys@.len() ==> (#[trigger] self.remote_pubkeys@[i]).0 != (
            #[trigger] self.remote_pubkeys@[j]).0
        &&& forall|i: int, j: int|
            0 <= i < j < self.remote_pubkeys@.len() ==> (#[trigger] self.remote_pubkeys@[i]).1@ != (
            #[trigger] self.remote_pubkeys@[j]).1@
        &&& forall|i: int|
            0 <= i < self.remote_pubkeys@.len() ==> 1 <= (#[trigger] self.remote_pubkeys@[i]).0
                <= self.next_session
        &&& forall|i: int, j: int|
            0 <= i < j < self.proto_handles@.len() ==> self.proto_handles@[i]
                != self.proto_handles@[j]
        &&& forall|i: int, j: int|
            0 <= i < j < self.proto_session_handles@.len() ==> !((
            #[trigger] self.proto_session_handles@[i]).id == (
            #[trigger] self.proto_session_handles@[j]).id && self.proto_session_handles@[i].proto_id
                == self.proto_session_handles@[j].proto_id)
        &&& self.session_event_queue.wf()
        &&& self.session_event_queue.cap == CHANNEL_SIZE
        &&& self.service_context.wf()
        &&& self.task_count >= self.dial@.len()
        &&& forall|i: int, j: int|
            0 <= i < j < self.dial@.len() ==> self.dial@[i] != self.dial@[j]
    }

    /// Whether `id` identifies a live session.
    pub open spec fn has_session(self, id: SessionId) -> bool {
        exists|i: int| 0 <= i < self.sessions@.len() && (#[trigger] self.sessions@[i]).id == id
    }

    /// Whether some live session resolved with public key `key`.
    pub open spec fn has_pubkey(self, key: Seq<u8>) -> bool {
        exists|i: int|
            0 <= i < self.remote_pubkeys@.len() && (#[trigger] self.remote_pubkeys@[i]).1@ == key
    }

    /// Whether the deduplication map holds an entry for session `id`.
    pub open spec fn pubkey_bound_to(self, id: SessionId) -> bool {
        exists|i: int|
            0 <= i < self.remote_pubkeys@.len() && (#[trigger] self.remote_pubkeys@[i]).0 == id
    }

    /// Whether an arriving connection with this key must be deduplicated.
    pub open spec fn dup_key(self, public_key: Option<PublicKey>) -> bool {
        public_key matches Some(k) && self.has_pubkey(k@)
    }

    /// Whether the global handler of `proto_id` has been instantiated.
    pub open spec fn global_installed(self, proto_id: ProtocolId) -> bool {
        self.proto_handles@.contains(proto_id)
    }

    /// Whether the descriptor of `proto_id` provides a global handler factory.
    pub open spec fn config_has_global(self, proto_id: ProtocolId) -> bool {
        exists|i: int|
            0 <= i < self.protocol_configs@.len() && (#[trigger] self.protocol_configs@[i]).id
                == proto_id && self.protocol_configs@[i].has_global_handle
    }

    /// Whether the descriptor of `proto_id` provides a per-session handler
    /// factory.
    pub open spec fn config_has_session(self, proto_id: ProtocolId) -> bool {
        exists|i: int|
            0 <= i < self.protocol_configs@.len() && (#[trigger] self.protocol_configs@[i]).id
                == proto_id && self.protocol_configs@[i].has_session_handle
    }

    /// Whether protocol `proto_id` is recorded as open in session `id`.
    pub open spec fn has_session_proto(self, id: SessionId, proto_id: ProtocolId) -> bool {
        exists|i: int|
            0 <= i < self.proto_session_handles@.len() && (
            #[trigger] self.proto_session_handles@[i]).id == id
                && self.proto_session_handles@[i].proto_id == proto_id
    }

    /// Whether a per-session handler is recorded at `(id, proto_id)`.
    pub open spec fn session_proto_handle(self, id: SessionId, proto_id: ProtocolId) -> bool {
        exists|i: int|
            0 <= i < self.proto_session_handles@.len() && (
            #[trigger] self.proto_session_handles@[i]).id == id
                && self.proto_session_handles@[i].proto_id == proto_id
                && self.proto_session_handles@[i].has_handle
    }

    /// The termination condition of the event loop.
    pub open spec fn is_terminal(self) -> bool {
        self.listens@.len() == 0 && self.task_count == 0 && self.sessions@.len() == 0
    }

    /// A new service over the given protocol descriptor set. `key_pair` says
    /// whether a local identity key pair is configured; with `forever` the
    /// outbound-activity counter starts at 1 so the loop never reports
    /// completion.
    pub fn new(protocol_configs: Vec<ProtocolMeta>, key_pair: bool, forever: bool) -> (s: Service)
        requires
            configs_wf(protocol_configs@),
        ensures
            s.wf(),
            s.protocol_configs == protocol_configs,
            s.sessions@ == Seq::<SessionRecord>::empty(),
            s.listens@ == Seq::<NetAddr>::empty(),
            s.dial@ == Seq::<NetAddr>::empty(),
            s.task_count == if forever {
                1usize
            } else {
                0usize
            },
            s.next_session == 0,
            s.key_pair == key_pair,
            s.remote_pubkeys@ == Seq::<(SessionId, PublicKey)>::empty(),
            s.proto_handles@ == Seq::<ProtocolId>::empty(),
            s.proto_session_handles@ == Seq::<SessionProtoEntry>::empty(),
            s.session_event_queue.items@ == Seq::<SessionEvent>::empty(),
            s.service_context.service_task_sender.items@.len() == 0,
            s.service_context.listens@.len() == 0,
            infos_match(protocol_configs@, s.service_context.proto_infos@),
    {
        let mut proto_infos: Vec<(ProtocolId, ProtocolInfo)> = Vec::new();
        let mut i: usize = 0;
        while i < protocol_configs.len()
            invariant
                i <= protocol_configs@.len(),
                infos_match(protocol_configs@.take(i as int), proto_infos@),
            decreases protocol_configs@.len() - i,
        {
            let meta = &protocol_configs[i];
            let name = clone_string(&meta.name);
            let support_versions = clone_strings(&meta.support_versions);
            proto_infos.push((meta.id, ProtocolInfo { name, support_versions }));
            i = i + 1;
            proof {
                assert(protocol_configs@.take(i as int).drop_last() =~= protocol_configs@.take(
                    i as int - 1,
                ));
            }
        }
        proof {
            assert(protocol_configs@.take(protocol_configs@.len() as int) =~= protocol_configs@);
        }
        Service {
            protocol_configs,
            sessions: Vec::new(),
            listens: Vec::new(),
            dial: Vec::new(),
            task_count: if forever {
                1
            } else {
                0
            },
            next_session: 0,
            key_pair,
            remote_pubkeys: Vec::new(),
            proto_handles: Vec::new(),
            proto_session_handles: Vec::new(),
            session_event_queue: BoundedQueue::new(CHANNEL_SIZE),
            service_context: ServiceContext::new(proto_infos),
        }
    }

    /// Records a listener the embedding runtime has bound on `address`; a
    /// failed bind is surfaced synchronously by the runtime and recorded
    /// nowhere.
    pub fn listen(&mut self, address: NetAddr)
        requires
            old(self).wf(),
        ensures
            final(self).wf(),
            final(self).listens@ == old(self).listens@.push(address),
            *final(self) == (Service { listens: final(self).listens, ..*old(self) }),
    {
        self.listens.push(address);
    }

    /// Queues an outbound connect to `address` and counts it, unless a dial
    /// to the same address is already in flight; then the request is dropped
    /// silently. Returns whether the runtime must start a connect.
    pub fn dial(&mut self, address: NetAddr) -> (started: bool)
        requires
            old(self).wf(),
            old(self).task_count < usize::MAX,
        ensures
            final(self).wf(),
            started == !old(self).dial@.contains(address),
            started ==> final(self).dial@ == old(self).dial@.push(address)
                && final(self).task_count == old(self).task_count + 1,
            !started ==> final(self).dial@ == old(self).dial@ && final(self).task_count == old(
                self,
            ).task_count,
            *final(self) == (Service {
                dial: final(self).dial,
                task_count: final(self).task_count,
                ..*old(self)
            }),
    {
        if self.dial_in_flight(address) {
            false
        } else {
            self.dial.push(address);
            self.task_count = self.task_count + 1;
            true
        }
    }

    /// Get the service's protocol descriptor set.
    pub fn get_protocol_configs(&self) -> (r: &Vec<ProtocolMeta>)
        ensures
            *r == self.protocol_configs,
    {
        &self.protocol_configs
    }

    /// Whether a dial to `address` is in flight.
    fn dial_in_flight(&self, address: NetAddr) -> (r: bool)
        ensures
            r == self.dial@.contains(address),
    {
        let mut i: usize = 0;
        while i < self.dial.len()
            invariant
                i <= self.dial@.len(),
                forall|j: int| 0 <= j < i ==> self.dial@[j] != address,
            decreases self.dial@.len() - i,
        {
            if self.dial[i] == address {
                return true;
            }
            i = i + 1;
        }
        false
    }
}

/// How one try-send of a `ProtocolMessage` command changes one session
/// record: the id and capacity stay; the command is appended exactly when
/// the channel has room, else the channel is unchanged (the declared
/// backpressure policy).
pub open spec fn pushed_message(
    pre: SessionRecord,
    post: SessionRecord,
    proto_id: ProtocolId,
    data: Seq<u8>,
) -> bool {
    &&& post.id == pre.id
    &&& post.sender.cap == pre.sender.cap
    &&& if pre.sender.items@.len() < pre.sender.cap {
        &&& post.sender.items@.len() == pre.sender.items@.len() + 1
        &&& post.sender.items@.take(pre.sender.items@.len() as int) == pre.sender.items@
        &&& (post.sender.items@.last() matches SessionEvent::ProtocolMessage {
            id,
            proto_id: p,
            data: d,
        } && id == pre.id && p == proto_id && bytes_view(d) == data)
    } else {
        post.sender.items@ == pre.sender.items@
    }
}

/// Whether a session id is addressed by a send: every session on a
/// broadcast (`None`), else exactly those in the list.
pub open spec fn target_hit(targets: Option<Seq<SessionId>>, id: SessionId) -> bool {
    match targets {
        None => true,
        Some(s) => s.contains(id),
    }
}

/// How sending one message to `targets` changes the service: only the
/// session registry moves, and each live session receives exactly one send
/// attempt exactly when it is addressed.
pub open spec fn broadcast_rel(
    pre: Service,
    post: Service,
    targets: Option<Seq<SessionId>>,
    proto_id: ProtocolId,
    data: Seq<u8>,
) -> bool {
    &&& post == (Service { sessions: post.sessions, ..pre })
    &&& post.sessions@.len() == pre.sessions@.len()
    &&& forall|j: int|
        0 <= j < pre.sessions@.len() ==> if target_hit(
            targets,
            (#[trigger] pre.sessions@[j]).id,
        ) {
            pushed_message(pre.sessions@[j], post.sessions@[j], proto_id, data)
        } else {
            post.sessions@[j] == pre.sessions@[j]
        }
}

/// The bytes of an optional public key.
pub open spec fn opt_key_view(key: Option<PublicKey>) -> Option<Seq<u8>> {
    match key {
        Some(k) => Some(k@),
        None => None,
    }
}

/// The action asks the session to open a substream for this protocol name.
pub open spec fn is_open_proto_stream(a: Action, id: SessionId, name: Seq<char>) -> bool {
    a matches Action::OpenProtoStream { id: i, name: n } && i == id && n@ == name
}

/// The action spawns the session with exactly this metadata.
pub open spec fn is_spawn_session(
    a: Action,
    id: SessionId,
    handle: u64,
    address: NetAddr,
    ty: SessionType,
    key: Option<Seq<u8>>,
) -> bool {
    a matches Action::SpawnSession { id: i, handle: h, address: ad, ty: t, public_key: k } && i
        == id && h == handle && ad == address && t == ty && opt_key_view(k) == key
}

/// The action reports `SessionOpen` with exactly this metadata to the
/// service handle.
pub open spec fn is_session_open_notify(
    a: Action,
    id: SessionId,
    address: NetAddr,
    ty: SessionType,
    key: Option<Seq<u8>>,
) -> bool {
    a matches Action::ServiceNotify {
        event: ServiceEvent::SessionOpen { id: i, address: ad, ty: t, public_key: k },
    } && i == id && ad == address && t == ty && opt_key_view(k) == key
}

/// How opening a session changes the service. A duplicate public key only
/// shuts the new stream down: no id is allocated, no event emitted. Otherwise
/// the next id is allocated, the key (if any) recorded for deduplication, a
/// fresh command channel registered, and the runtime is asked — in this
/// order — to request every configured protocol on an outbound session, to
/// spawn the session, and to report `SessionOpen` with the actual direction.
pub open spec fn session_open_rel(
    pre: Service,
    post: Service,
    out: Seq<Action>,
    handle: u64,
    public_key: Option<PublicKey>,
    address: NetAddr,
    ty: SessionType,
) -> bool {
    if pre.dup_key(public_key) {
        &&& post == pre
        &&& out.len() == 1
        &&& (out[0] matches Action::ShutdownStream { handle: h } && h == handle)
    } else {
        let sid = (pre.next_session + 1) as SessionId;
        let opens = if ty == SessionType::Outbound {
            pre.protocol_configs@.len() as int
        } else {
            0int
        };
        &&& pre.next_session < u64::MAX
        &&& post.next_session == sid
        &&& post.sessions@.len() == pre.sessions@.len() + 1
        &&& post.sessions@.take(pre.sessions@.len() as int) == pre.sessions@
        &&& post.sessions@.last().id == sid
        &&& post.sessions@.last().sender.items@ == Seq::<SessionEvent>::empty()
        &&& post.sessions@.last().sender.cap == CHANNEL_SIZE
        &&& (match public_key {
            Some(k) => post.remote_pubkeys@.len() == pre.remote_pubkeys@.len() + 1
                && post.remote_pubkeys@.take(pre.remote_pubkeys@.len() as int)
                == pre.remote_pubkeys@ && post.remote_pubkeys@.last().0 == sid
                && post.remote_pubkeys@.last().1@ == k@,
            None => post.remote_pubkeys@ == pre.remote_pubkeys@,
        })
        &&& post == (Service {
            sessions: post.sessions,
            next_session: post.next_session,
            remote_pubkeys: post.remote_pubkeys,
            ..pre
        })
        &&& out.len() == opens + 2
        &&& forall|i: int|
            0 <= i < opens ==> is_open_proto_stream(
                #[trigger] out[i],
                sid,
                pre.protocol_configs@[i].name@,
            )
        &&& is_spawn_session(out[opens], sid, handle, address, ty, opt_key_view(public_key))
        &&& is_session_open_notify(out[opens + 1], sid, address, ty, opt_key_view(public_key))
    }
}

/// Entries of the per-session handler registry under session `id`, in
/// registry order.
pub open spec fn entries_for(s: Seq<SessionProtoEntry>, id: SessionId) -> Seq<SessionProtoEntry>
    decreases s.len(),
{
    if s.len() == 0 {
        Seq::<SessionProtoEntry>::empty()
    } else if s.last().id == id {
        entries_for(s.drop_last(), id).push(s.last())
    } else {
        entries_for(s.drop_last(), id)
    }
}

/// Entries of the per-session handler registry not under session `id`, in
/// registry order.
pub open spec fn entries_not_for(
    s: Seq<SessionProtoEntry>,
    id: SessionId,
) -> Seq<SessionProtoEntry>
    decreases s.len(),
{
    if s.len() == 0 {
        Seq::<SessionProtoEntry>::empty()
    } else if s.last().id != id {
        entries_not_for(s.drop_last(), id).push(s.last())
    } else {
        entries_not_for(s.drop_last(), id)
    }
}

/// The `disconnected` calls on per-session handlers when these entries
/// close: one per entry that has a handler, in entry order.
pub open spec fn session_disconnect_actions(
    entries: Seq<SessionProtoEntry>,
    id: SessionId,
) -> Seq<Action>
    decreases entries.len(),
{
    if entries.len() == 0 {
        Seq::<Action>::empty()
    } else if entries.last().has_handle {
        session_disconnect_actions(entries.drop_last(), id).push(
            Action::SessionDisconnected { id, proto_id: entries.last().proto_id },
        )
    } else {
        session_disconnect_actions(entries.drop_last(), id)
    }
}

/// The `disconnected` calls on global handlers when these entries close: one
/// per entry whose protocol has an instantiated global handler, in entry
/// order. Going through the entry list matters: a global handler must not
/// be told about a session in which its protocol never opened.
pub open spec fn global_disconnect_actions(
    entries: Seq<SessionProtoEntry>,
    installed: Seq<ProtocolId>,
    id: SessionId,
) -> Seq<Action>
    decreases entries.len(),
{
    if entries.len() == 0 {
        Seq::<Action>::empty()
    } else if installed.contains(entries.last().proto_id) {
        global_disconnect_actions(entries.drop_last(), installed, id).push(
            Action::GlobalDisconnected { proto_id: entries.last().proto_id, id },
        )
    } else {
        global_disconnect_actions(entries.drop_last(), installed, id)
    }
}

/// How closing session `id` changes the service: its deduplication entry,
/// registry record and every per-session handler entry under it go away, and
/// the runtime is asked — in this order — to send the close order on the
/// session's command channel (when the session was live), to report
/// `SessionClose`, to call `disconnected` on each per-session handler of the
/// session, and then on the global handler of each protocol that was open in
/// it.
pub open spec fn session_close_rel(
    pre: Service,
    post: Service,
    out: Seq<Action>,
    id: SessionId,
) -> bool {
    let closed = entries_for(pre.proto_session_handles@, id);
    &&& post == (Service {
        sessions: post.sessions,
        remote_pubkeys: post.remote_pubkeys,
        proto_session_handles: post.proto_session_handles,
        ..pre
    })
    &&& (if pre.has_session(id) {
        exists|i: int|
            0 <= i < pre.sessions@.len() && (#[trigger] pre.sessions@[i]).id == id
                && post.sessions@ == pre.sessions@.remove(i)
    } else {
        post.sessions@ == pre.sessions@
    })
    &&& (if pre.pubkey_bound_to(id) {
        exists|i: int|
            0 <= i < pre.remote_pubkeys@.len() && (#[trigger] pre.remote_pubkeys@[i]).0 == id
                && post.remote_pubkeys@ == pre.remote_pubkeys@.remove(i)
    } else {
        post.remote_pubkeys@ == pre.remote_pubkeys@
    })
    &&& post.proto_session_handles@ == entries_not_for(pre.proto_session_handles@, id)
    &&& out =~= (if pre.has_session(id) {
        seq![Action::SendSessionClose { id }]
    } else {
        Seq::<Action>::empty()
    }) + seq![Action::ServiceNotify { event: ServiceEvent::SessionClose { id } }]
        + session_disconnect_actions(closed, id) + global_disconnect_actions(
        closed,
        pre.proto_handles@,
        id,
    )
}

/// Every entry of `entries_not_for(s, id)` comes from `s` and is not under
/// `id`; under pairwise-distinct `(session, protocol)` pairs the result's
/// pairs stay pairwise distinct.
pub proof fn lemma_entries_not_for(s: Seq<SessionProtoEntry>, id: SessionId)
    ensures
        forall|j: int|
            0 <= j < entries_not_for(s, id).len() ==> (#[trigger] entries_not_for(s, id)[j]).id
                != id && s.contains(entries_not_for(s, id)[j]),
        (forall|i: int, j: int|
            0 <= i < j < s.len() ==> !((#[trigger] s[i]).id == (#[trigger] s[j]).id && s[i].proto_id
                == s[j].proto_id)) ==> (forall|i: int, j: int|
            0 <= i < j < entries_not_for(s, id).len() ==> !((#[trigger] entries_not_for(s, id)[i]).id
                == (#[trigger] entries_not_for(s, id)[j]).id && entries_not_for(s, id)[i].proto_id
                == entries_not_for(s, id)[j].proto_id)),
    decreases s.len(),
{
    let r = entries_not_for(s, id);
    if s.len() > 0 {
        let sp = s.drop_last();
        let rp = entries_not_for(sp, id);
        lemma_entries_not_for(sp, id);
        assert(s[s.len() - 1] == s.last());
        assert forall|j: int| 0 <= j < r.len() implies (#[trigger] r[j]).id != id && s.contains(
            r[j],
        ) by {
            if s.last().id != id && j == r.len() - 1 {
                assert(r[j] == s.last());
                assert(s.contains(s.last()));
            } else {
                assert(r[j] == rp[j]);
                assert(sp.contains(rp[j]));
                let w = choose|w: int| 0 <= w < sp.len() && sp[w] == rp[j];
                assert(s[w] == rp[j]);
                assert(s.contains(s[w]));
            }
        }
        if forall|i: int, j: int|
            0 <= i < j < s.len() ==> !((#[trigger] s[i]).id == (#[trigger] s[j]).id && s[i].proto_id
                == s[j].proto_id) {
            assert forall|i: int, j: int|
                0 <= i < j < sp.len() implies !((#[trigger] sp[i]).id == (#[trigger] sp[j]).id
                && sp[i].proto_id == sp[j].proto_id) by {
                assert(sp[i] == s[i]);
                assert(sp[j] == s[j]);
            }
            assert forall|i: int, j: int|
                0 <= i < j < r.len() implies !((#[trigger] r[i]).id == (#[trigger] r[j]).id
                && r[i].proto_id == r[j].proto_id) by {
                if s.last().id != id && j == r.len() - 1 {
                    assert(r[i] == rp[i]);
                    assert(r[j] == s.last());
                    assert(sp.contains(rp[i]));
                    let w = choose|w: int| 0 <= w < sp.len() && sp[w] == rp[i];
                    assert(s[w] == r[i]);
                    assert(!(s[w].id == s[s.len() - 1].id && s[w].proto_id == s[s.len()
                        - 1].proto_id));
                } else {
                    assert(r[i] == rp[i]);
                    assert(r[j] == rp[j]);
                }
            }
        }
    }
}

/// The action calls `connected` on the global handler with exactly this
/// metadata.
pub open spec fn is_global_connected(
    a: Action,
    pid: ProtocolId,
    id: SessionId,
    address: NetAddr,
    ty: SessionType,
    key: Option<Seq<u8>>,
    version: Seq<char>,
) -> bool {
    a matches Action::GlobalConnected {
        proto_id: p,
        id: i,
        address: ad,
        ty: t,
        public_key: k,
        version: v,
    } && p == pid && i == id && ad == address && t == ty && opt_key_view(k) == key && v@ == version
}

/// The action calls `connected` on the per-session handler with exactly this
/// metadata.
pub open spec fn is_session_connected(
    a: Action,
    id: SessionId,
    pid: ProtocolId,
    address: NetAddr,
    ty: SessionType,
    key: Option<Seq<u8>>,
    version: Seq<char>,
) -> bool {
    a matches Action::SessionConnected {
        id: i,
        proto_id: p,
        address: ad,
        ty: t,
        public_key: k,
        version: v,
    } && i == id && p == pid && ad == address && t == ty && opt_key_view(k) == key && v@ == version
}

/// The action delivers the message to the global handler, bytes cloned.
pub open spec fn is_global_received(
    a: Action,
    pid: ProtocolId,
    id: SessionId,
    data: Seq<u8>,
) -> bool {
    a matches Action::GlobalReceived { proto_id: p, message: m } && p == pid && m.id == id
        && m.proto_id == pid && m.data@ == data
}

/// The action delivers the message to the per-session handler, bytes cloned.
pub open spec fn is_session_received(
    a: Action,
    id: SessionId,
    pid: ProtocolId,
    data: Seq<u8>,
) -> bool {
    a matches Action::SessionReceived { id: i, proto_id: p, message: m } && i == id && p == pid
        && m.id == id && m.proto_id == pid && m.data@ == data
}

/// How a protocol opening at `(id, pid)` changes the service. The global
/// handler is connected, instantiated first (with a single `init`) if its
/// factory exists and it does not live yet. A per-session handler is
/// instantiated and connected if its factory exists; the registry records the
/// open protocol either way, so close-time accounting knows of it.
pub open spec fn protocol_open_rel(
    pre: Service,
    post: Service,
    out: Seq<Action>,
    id: SessionId,
    pid: ProtocolId,
    address: NetAddr,
    ty: SessionType,
    key: Option<Seq<u8>>,
    version: Seq<char>,
) -> bool {
    let g_inst = pre.global_installed(pid);
    let g_avail = pre.config_has_global(pid);
    let s_avail = pre.config_has_session(pid);
    let globals: int = if g_inst {
        1
    } else if g_avail {
        2
    } else {
        0
    };
    let entry = SessionProtoEntry { id, proto_id: pid, has_handle: s_avail };
    &&& post == (Service {
        proto_handles: post.proto_handles,
        proto_session_handles: post.proto_session_handles,
        ..pre
    })
    &&& post.proto_handles@ == if !g_inst && g_avail {
        pre.proto_handles@.push(pid)
    } else {
        pre.proto_handles@
    }
    &&& (if pre.has_session_proto(id, pid) {
        exists|i: int|
            0 <= i < pre.proto_session_handles@.len() && (
            #[trigger] pre.proto_session_handles@[i]).id == id
                && pre.proto_session_handles@[i].proto_id == pid && post.proto_session_handles@
                == pre.proto_session_handles@.update(i, entry)
    } else {
        post.proto_session_handles@ == pre.proto_session_handles@.push(entry)
    })
    &&& post.has_session_proto(id, pid)
    &&& post.session_proto_handle(id, pid) == s_avail
    &&& out.len() == globals + (if s_avail {
        2int
    } else {
        0int
    })
    &&& (g_inst ==> is_global_connected(out[0], pid, id, address, ty, key, version))
    &&& (!g_inst && g_avail ==> (out[0] matches Action::GlobalInit { proto_id: p } && p == pid)
        && is_global_connected(out[1], pid, id, address, ty, key, version))
    &&& (s_avail ==> (out[globals] matches Action::SessionInit { id: i, proto_id: p } && i == id
        && p == pid) && is_session_connected(out[globals + 1], id, pid, address, ty, key, version))
}

/// How delivering inbound protocol data changes the service: not at all; the
/// message goes to the global handler if one lives, then to the per-session
/// handler if one lives at `(id, pid)`, each with its own copy of the bytes.
pub open spec fn protocol_message_rel(
    pre: Service,
    post: Service,
    out: Seq<Action>,
    id: SessionId,
    pid: ProtocolId,
    data: Seq<u8>,
) -> bool {
    let g: int = if pre.global_installed(pid) {
        1
    } else {
        0
    };
    let s: int = if pre.session_proto_handle(id, pid) {
        1
    } else {
        0
    };
    &&& post == pre
    &&& out.len() == g + s
    &&& (pre.global_installed(pid) ==> is_global_received(out[0], pid, id, data))
    &&& (pre.session_proto_handle(id, pid) ==> is_session_received(out[g], id, pid, data))
}

/// How a protocol closing at `(id, pid)` changes the service: the global
/// handler (if any) hears `disconnected`, the registry entry goes away, and
/// its per-session handler (if it had one) hears `disconnected` and is
/// destroyed.
pub open spec fn protocol_close_rel(
    pre: Service,
    post: Service,
    out: Seq<Action>,
    id: SessionId,
    pid: ProtocolId,
) -> bool {
    let g: int = if pre.global_installed(pid) {
        1
    } else {
        0
    };
    let s: int = if pre.session_proto_handle(id, pid) {
        1
    } else {
        0
    };
    &&& post == (Service { proto_session_handles: post.proto_session_handles, ..pre })
    &&& (if pre.has_session_proto(id, pid) {
        exists|i: int|
            0 <= i < pre.proto_session_handles@.len() && (
            #[trigger] pre.proto_session_handles@[i]).id == id
                && pre.proto_session_handles@[i].proto_id == pid && post.proto_session_handles@
                == pre.proto_session_handles@.remove(i)
    } else {
        post.proto_session_handles@ == pre.proto_session_handles@
    })
    &&& !post.has_session_proto(id, pid)
    &&& out.len() == g + s
    &&& (pre.global_installed(pid) ==> (out[0] matches Action::GlobalDisconnected {
        proto_id: p,
        id: i,
    } && p == pid && i == id))
    &&& (pre.session_proto_handle(id, pid) ==> (out[g] matches Action::SessionDisconnected {
        id: i,
        proto_id: p,
    } && i == id && p == pid))
}

/// Whether this event reports the outcome of an outbound handshake; each
/// such outcome pays back one unit of the outbound-activity counter.
pub open spec fn outbound_result(e: SessionEvent) -> bool {
    ||| e matches SessionEvent::HandshakeSuccess { ty: SessionType::Outbound, .. }
    ||| e matches SessionEvent::HandshakeFail { ty: SessionType::Outbound, .. }
}

/// How dispatching one session event changes the service (§ event dispatch):
/// handshake outcomes open sessions and settle the outbound counter; session
/// and protocol lifecycle events go to their transitions.
pub open spec fn handle_session_event_rel(
    pre: Service,
    post: Service,
    out: Seq<Action>,
    event: SessionEvent,
) -> bool {
    match event {
        SessionEvent::SessionClose { id } => session_close_rel(pre, post, out, id),
        SessionEvent::HandshakeSuccess { handle, public_key, address, ty } => {
            exists|mid: Service|
                {
                    &&& #[trigger] session_open_rel(
                        pre,
                        mid,
                        out,
                        handle,
                        Some(public_key),
                        address,
                        ty,
                    )
                    &&& post == (Service { task_count: post.task_count, ..mid })
                    &&& post.task_count == if ty == SessionType::Outbound {
                        mid.task_count - 1
                    } else {
                        mid.task_count as int
                    }
                }
        },
        SessionEvent::HandshakeFail { ty, .. } => {
            &&& post == (Service { task_count: post.task_count, ..pre })
            &&& post.task_count == if ty == SessionType::Outbound {
                pre.task_count - 1
            } else {
                pre.task_count as int
            }
            &&& out.len() == 0
        },
        SessionEvent::ProtocolMessage { id, proto_id, data } => protocol_message_rel(
            pre,
            post,
            out,
            id,
            proto_id,
            bytes_view(data),
        ),
        SessionEvent::ProtocolOpen {
            id,
            proto_id,
            remote_address,
            remote_public_key,
            ty,
            version,
        } => protocol_open_rel(
            pre,
            post,
            out,
            id,
            proto_id,
            remote_address,
            ty,
            opt_key_view(remote_public_key),
            version@,
        ),
        SessionEvent::ProtocolClose { id, proto_id } => protocol_close_rel(
            pre,
            post,
            out,
            id,
            proto_id,
        ),
    }
}

/// How dispatching one service task changes the service (§ task dispatch).
pub open spec fn handle_service_task_rel(
    pre: Service,
    post: Service,
    out: Seq<Action>,
    task: ServiceTask,
) -> bool {
    match task {
        ServiceTask::ProtocolMessage { ids, message } => {
            &&& broadcast_rel(
                pre,
                post,
                match ids {
                    None => None,
                    Some(v) => Some(v@),
                },
                message.proto_id,
                message.data@,
            )
            &&& out.len() == 0
        },
        ServiceTask::Dial { address } => {
            &&& post == (Service { dial: post.dial, task_count: post.task_count, ..pre })
            &&& (if pre.dial@.contains(address) {
                &&& post.dial@ == pre.dial@
                &&& post.task_count == pre.task_count
                &&& out.len() == 0
            } else {
                &&& post.dial@ == pre.dial@.push(address)
                &&& post.task_count == pre.task_count + 1
                &&& out.len() == 1
                &&& (out[0] matches Action::StartDial { address: a } && a == address)
            })
        },
        ServiceTask::Disconnect { id } => session_close_rel(pre, post, out, id),
        ServiceTask::FutureTask { task: t } => {
            &&& post == pre
            &&& out.len() == 1
            &&& (out[0] matches Action::SpawnFuture { task: tk } && tk == t)
        },
        ServiceTask::ProtocolNotify { proto_id, token } => {
            &&& post == pre
            &&& (if pre.global_installed(proto_id) {
                out.len() == 1 && (out[0] matches Action::GlobalNotify { proto_id: p, token: tok }
                    && p == proto_id && tok == token)
            } else {
                out.len() == 0
            })
        },
        ServiceTask::ProtocolSessionNotify { id, proto_id, token } => {
            &&& post == pre
            &&& (if pre.session_proto_handle(id, proto_id) {
                out.len() == 1 && (out[0] matches Action::SessionNotify {
                    id: i,
                    proto_id: p,
                    token: tok,
                } && i == id && p == proto_id && tok == token)
            } else {
                out.len() == 0
            })
        },
    }
}

/// A send attempt leaves the session registry well formed: every record
/// keeps its id and capacity, and no channel grows beyond its bound.
pub proof fn lemma_broadcast_preserves_wf(
    pre: Service,
    post: Service,
    targets: Option<Seq<SessionId>>,
    proto_id: ProtocolId,
    data: Seq<u8>,
)
    requires
        pre.wf(),
        broadcast_rel(pre, post, targets, proto_id, data),
    ensures
        post.wf(),
{
    assert forall|j: int| 0 <= j < post.sessions@.len() implies {
        &&& (#[trigger] post.sessions@[j]).id == pre.sessions@[j].id
        &&& post.sessions@[j].sender.cap == pre.sessions@[j].sender.cap
        &&& post.sessions@[j].sender.items@.len() <= post.sessions@[j].sender.cap
    } by {
        assert(0 <= j < pre.sessions@.len());
        if target_hit(targets, pre.sessions@[j].id) {
            assert(pushed_message(pre.sessions@[j], post.sessions@[j], proto_id, data));
        }
    }
}

impl Service {
    /// Send data to the specified protocol of the specified session; without
    /// a live session of that id nothing happens.
    pub fn send_message(&mut self, message: Message)
        requires
            old(self).wf(),
        ensures
            final(self).wf(),
            broadcast_rel(
                *old(self),
                *final(self),
                Some(seq![message.id]),
                message.proto_id,
                message.data@,
            ),
    {
        let Message { id, proto_id, data } = message;
        let ghost data_view: Seq<u8> = data@;
        match self.find_session_index(id) {
            Some(i) => {
                let payload = bytes_from_vec(data);
                let accepted = self.sessions[i].sender.try_send(
                    SessionEvent::ProtocolMessage { id, proto_id, data: payload },
                );
                proof {
                    if accepted {
                        assert(self.sessions@[i as int].sender.items@.take(
                            old(self).sessions@[i as int].sender.items@.len() as int,
                        ) =~= old(self).sessions@[i as int].sender.items@);
                    }
                    assert(seq![id].contains(id)) by {
                        assert(seq![id][0] == id);
                    }
                    assert forall|j: int|
                        0 <= j < old(self).sessions@.len() implies if target_hit(
                        Some(seq![id]),
                        (#[trigger] old(self).sessions@[j]).id,
                    ) {
                        pushed_message(
                            old(self).sessions@[j],
                            self.sessions@[j],
                            proto_id,
                            data_view,
                        )
                    } else {
                        self.sessions@[j] == old(self).sessions@[j]
                    } by {
                        if j != i {
                            assert(old(self).sessions@[j].id != id);
                            assert(!seq![id].contains(old(self).sessions@[j].id)) by {
                                assert(seq![id][0] == id);
                            }
                        }
                    }
                    lemma_broadcast_preserves_wf(
                        *old(self),
                        *self,
                        Some(seq![id]),
                        proto_id,
                        data_view,
                    );
                }
            },
            None => {
                proof {
                    assert forall|j: int|
                        0 <= j < old(self).sessions@.len() implies !seq![id].contains(
                        (#[trigger] old(self).sessions@[j]).id,
                    ) by {
                        assert(old(self).sessions@[j].id != id);
                        assert(seq![id][0] == id);
                    }
                }
            },
        }
    }

    /// Send data to the specified protocol of the specified sessions, or to
    /// all when `ids` is `None`.
    pub fn filter_broadcast(&mut self, ids: Option<Vec<SessionId>>, message: Message)
        requires
            old(self).wf(),
        ensures
            final(self).wf(),
            broadcast_rel(
                *old(self),
                *final(self),
                match ids {
                    None => None,
                    Some(v) => Some(v@),
                },
                message.proto_id,
                message.data@,
            ),
    {
        match ids {
            None => self.broadcast(message),
            Some(id_list) => {
                let Message { id: _, proto_id, data } = message;
                let ghost data_view: Seq<u8> = data@;
                let payload = bytes_from_vec(data);
                let n = self.sessions.len();
                let mut i: usize = 0;
                while i < n
                    invariant
                        i <= n,
                        n == old(self).sessions@.len(),
                        old(self).wf(),
                        bytes_view(payload) == data_view,
                        self.sessions@.len() == n,
                        *self == (Service { sessions: self.sessions, ..*old(self) }),
                        forall|j: int|
                            0 <= j < i ==> if id_list@.contains(
                                (#[trigger] old(self).sessions@[j]).id,
                            ) {
                                pushed_message(
                                    old(self).sessions@[j],
                                    self.sessions@[j],
                                    proto_id,
                                    data_view,
                                )
                            } else {
                                self.sessions@[j] == old(self).sessions@[j]
                            },
                        forall|j: int| i <= j < n ==> self.sessions@[j] == old(self).sessions@[j],
                    decreases n - i,
                {
                    if id_in(&id_list, self.sessions[i].id) {
                        let chunk = bytes_clone(&payload);
                        let sid = self.sessions[i].id;
                        let accepted = self.sessions[i].sender.try_send(
                            SessionEvent::ProtocolMessage { id: sid, proto_id, data: chunk },
                        );
                        proof {
                            if accepted {
                                assert(self.sessions@[i as int].sender.items@.take(
                                    old(self).sessions@[i as int].sender.items@.len() as int,
                                ) =~= old(self).sessions@[i as int].sender.items@);
                            }
                        }
                    }
                    i = i + 1;
                }
                proof {
                    assert(broadcast_rel(
                        *old(self),
                        *self,
                        Some(id_list@),
                        proto_id,
                        data_view,
                    ));
                    lemma_broadcast_preserves_wf(
                        *old(self),
                        *self,
                        Some(id_list@),
                        proto_id,
                        data_view,
                    );
                }
            },
        }
    }

    /// Broadcast data of a specified protocol to every live session.
    pub fn broadcast(&mut self, message: Message)
        requires
            old(self).wf(),
        ensures
            final(self).wf(),
            broadcast_rel(*old(self), *final(self), None, message.proto_id, message.data@),
    {
        let Message { id: _, proto_id, data } = message;
        let ghost data_view: Seq<u8> = data@;
        let payload = bytes_from_vec(data);
        let n = self.sessions.len();
        let mut i: usize = 0;
        while i < n
            invariant
                i <= n,
                n == old(self).sessions@.len(),
                old(self).wf(),
                bytes_view(payload) == data_view,
                self.sessions@.len() == n,
                *self == (Service { sessions: self.sessions, ..*old(self) }),
                forall|j: int|
                    0 <= j < i ==> pushed_message(
                        old(self).sessions@[j],
                        #[trigger] self.sessions@[j],
                        proto_id,
                        data_view,
                    ),
                forall|j: int| i <= j < n ==> self.sessions@[j] == old(self).sessions@[j],
            decreases n - i,
        {
            let chunk = bytes_clone(&payload);
            let sid = self.sessions[i].id;
            let accepted = self.sessions[i].sender.try_send(
                SessionEvent::ProtocolMessage { id: sid, proto_id, data: chunk },
            );
            proof {
                if accepted {
                    assert(self.sessions@[i as int].sender.items@.take(
                        old(self).sessions@[i as int].sender.items@.len() as int,
                    ) =~= old(self).sessions@[i as int].sender.items@);
                }
            }
            i = i + 1;
        }
        proof {
            assert(broadcast_rel(*old(self), *self, None, proto_id, data_view));
            lemma_broadcast_preserves_wf(*old(self), *self, None, proto_id, data_view);
        }
    }

    /// Opens a session over an authenticated (or bypass) stream. With a
    /// duplicate public key the stream is shut down and nothing else happens;
    /// otherwise a fresh id is allocated, the session registered and the
    /// service handle notified.
    pub fn session_open(
        &mut self,
        handle: u64,
        public_key: Option<PublicKey>,
        address: NetAddr,
        ty: SessionType,
    ) -> (out: Vec<Action>)
        requires
            old(self).wf(),
            old(self).next_session < u64::MAX,
        ensures
            final(self).wf(),
            session_open_rel(
                *old(self),
                *final(self),
                out@,
                handle,
                public_key,
                address,
                ty,
            ),
    {
        let mut out: Vec<Action> = Vec::new();
        let is_dup = match &public_key {
            Some(k) => self.pubkey_exists(k),
            None => false,
        };
        if is_dup {
            // The connection is already established under this identity; the
            // useless new connection is closed.
            out.push(Action::ShutdownStream { handle });
            return out;
        }
        self.next_session = self.next_session + 1;
        let sid = self.next_session;
        if let Some(k) = &public_key {
            self.remote_pubkeys.push((sid, k.duplicate()));
            proof {
                assert(self.remote_pubkeys@.take(old(self).remote_pubkeys@.len() as int) =~= old(
                    self,
                ).remote_pubkeys@);
            }
        }
        if ty == SessionType::Outbound {
            let n = self.protocol_configs.len();
            let mut i: usize = 0;
            while i < n
                invariant
                    i <= n,
                    n == self.protocol_configs@.len(),
                    out@.len() == i,
                    forall|j: int|
                        0 <= j < i ==> is_open_proto_stream(
                            #[trigger] out@[j],
                            sid,
                            self.protocol_configs@[j].name@,
                        ),
                decreases n - i,
            {
                let name = clone_string(&self.protocol_configs[i].name);
                out.push(Action::OpenProtoStream { id: sid, name });
                i = i + 1;
            }
        }
        self.sessions.push(SessionRecord { id: sid, sender: BoundedQueue::new(CHANNEL_SIZE) });
        proof {
            assert(self.sessions@.take(old(self).sessions@.len() as int) =~= old(self).sessions@);
        }
        out.push(
            Action::SpawnSession {
                id: sid,
                handle,
                address,
                ty,
                public_key: duplicate_opt_key(&public_key),
            },
        );
        out.push(
            Action::ServiceNotify {
                event: ServiceEvent::SessionOpen { id: sid, address, ty, public_key },
            },
        );
        proof {
            assert forall|a: int, b: int|
                0 <= a < b < self.sessions@.len() implies (#[trigger] self.sessions@[a]).id != (
            #[trigger] self.sessions@[b]).id by {
                if b < old(self).sessions@.len() {
                    assert(self.sessions@[a] == old(self).sessions@[a]);
                    assert(self.sessions@[b] == old(self).sessions@[b]);
                } else {
                    assert(self.sessions@[a] == old(self).sessions@[a]);
                    assert(self.sessions@[b].id == sid);
                    assert(old(self).sessions@[a].id <= old(self).next_session);
                }
            }
            assert forall|a: int, b: int|
                0 <= a < b < self.remote_pubkeys@.len() implies (
            #[trigger] self.remote_pubkeys@[a]).0 != (#[trigger] self.remote_pubkeys@[b]).0
                && self.remote_pubkeys@[a].1@ != self.remote_pubkeys@[b].1@ by {
                if b < old(self).remote_pubkeys@.len() {
                    assert(self.remote_pubkeys@[a] == old(self).remote_pubkeys@[a]);
                    assert(self.remote_pubkeys@[b] == old(self).remote_pubkeys@[b]);
                } else {
                    assert(self.remote_pubkeys@[a] == old(self).remote_pubkeys@[a]);
                    assert(old(self).remote_pubkeys@[a].0 <= old(self).next_session);
                }
            }
            assert(self.wf());
        }
        out
    }

    /// Closes the session `id`: cleans up its deduplication entry, registry
    /// record and per-session handlers, tells the session to wind down,
    /// notifies the service handle and the affected handlers.
    pub fn session_close(&mut self, id: SessionId) -> (out: Vec<Action>)
        requires
            old(self).wf(),
        ensures
            final(self).wf(),
            session_close_rel(*old(self), *final(self), out@, id),
    {
        let mut out: Vec<Action> = Vec::new();
        if let Some(i) = self.find_pubkey_index(id) {
            let _ = self.remote_pubkeys.remove(i);
            proof {
                assert forall|a: int, b: int|
                    0 <= a < b < self.remote_pubkeys@.len() implies (
                #[trigger] self.remote_pubkeys@[a]).0 != (#[trigger] self.remote_pubkeys@[b]).0 && (
                self.remote_pubkeys@[a]).1@ != (self.remote_pubkeys@[b]).1@ && 1
                    <= self.remote_pubkeys@[a].0 <= self.next_session && 1
                    <= self.remote_pubkeys@[b].0 <= self.next_session by {
                    assert(self.remote_pubkeys@[a] == if a < i {
                        old(self).remote_pubkeys@[a]
                    } else {
                        old(self).remote_pubkeys@[a + 1]
                    });
                    assert(self.remote_pubkeys@[b] == if b < i {
                        old(self).remote_pubkeys@[b]
                    } else {
                        old(self).remote_pubkeys@[b + 1]
                    });
                }
            }
        }
        let had_session = match self.find_session_index(id) {
            Some(i) => {
                let _ = self.sessions.remove(i);
                proof {
                    assert forall|a: int, b: int|
                        0 <= a < b < self.sessions@.len() implies (#[trigger] self.sessions@[a]).id
                        != (#[trigger] self.sessions@[b]).id by {
                        assert(self.sessions@[a] == if a < i {
                            old(self).sessions@[a]
                        } else {
                            old(self).sessions@[a + 1]
                        });
                        assert(self.sessions@[b] == if b < i {
                            old(self).sessions@[b]
                        } else {
                            old(self).sessions@[b + 1]
                        });
                    }
                }
                out.push(Action::SendSessionClose { id });
                true
            },
            None => false,
        };
        out.push(Action::ServiceNotify { event: ServiceEvent::SessionClose { id } });
        let ghost mid = *self;
        let ghost base_out = out@;
        let ghost pre_psh = self.proto_session_handles@;

        // Split the registry: entries under `id` close, the rest stay.
        let mut kept: Vec<SessionProtoEntry> = Vec::new();
        let mut closed: Vec<SessionProtoEntry> = Vec::new();
        let n = self.proto_session_handles.len();
        let mut i: usize = 0;
        while i < n
            invariant
                i <= n,
                n == pre_psh.len(),
                self.proto_session_handles@ == pre_psh,
                kept@ == entries_not_for(pre_psh.take(i as int), id),
                closed@ == entries_for(pre_psh.take(i as int), id),
            decreases n - i,
        {
            let e = self.proto_session_handles[i];
            if e.id == id {
                closed.push(e);
            } else {
                kept.push(e);
            }
            i = i + 1;
            proof {
                assert(pre_psh.take(i as int).drop_last() =~= pre_psh.take(i as int - 1));
                assert(pre_psh.take(i as int).last() == pre_psh[i as int - 1]);
            }
        }
        proof {
            assert(pre_psh.take(n as int) =~= pre_psh);
        }
        self.proto_session_handles = kept;

        // Per-session handler processing flow.
        let m = closed.len();
        let mut k: usize = 0;
        while k < m
            invariant
                k <= m,
                m == closed@.len(),
                out@ == base_out + session_disconnect_actions(closed@.take(k as int), id),
            decreases m - k,
        {
            let e = closed[k];
            if e.has_handle {
                out.push(Action::SessionDisconnected { id, proto_id: e.proto_id });
            }
            k = k + 1;
            proof {
                assert(closed@.take(k as int).drop_last() =~= closed@.take(k as int - 1));
                assert(closed@.take(k as int).last() == closed@[k as int - 1]);
            }
        }
        proof {
            assert(closed@.take(m as int) =~= closed@);
        }

        // Global handler processing flow: only for protocols that were open
        // in this session.
        let ghost base_out2 = out@;
        let mut k2: usize = 0;
        while k2 < m
            invariant
                k2 <= m,
                m == closed@.len(),
                self.proto_handles@ == old(self).proto_handles@,
                out@ == base_out2 + global_disconnect_actions(
                    closed@.take(k2 as int),
                    self.proto_handles@,
                    id,
                ),
            decreases m - k2,
        {
            let e = closed[k2];
            if self.global_handle_installed(e.proto_id) {
                out.push(Action::GlobalDisconnected { proto_id: e.proto_id, id });
            }
            k2 = k2 + 1;
            proof {
                assert(closed@.take(k2 as int).drop_last() =~= closed@.take(k2 as int - 1));
                assert(closed@.take(k2 as int).last() == closed@[k2 as int - 1]);
            }
        }
        proof {
            assert(closed@.take(m as int) =~= closed@);
            lemma_entries_not_for(pre_psh, id);
            assert(self.wf());
        }
        out
    }

    /// Opens the handlers for protocol `proto_id` in session `id` and records
    /// the open protocol in the per-session registry.
    pub fn protocol_open(
        &mut self,
        id: SessionId,
        proto_id: ProtocolId,
        address: NetAddr,
        ty: SessionType,
        remote_public_key: &Option<PublicKey>,
        version: &String,
    ) -> (out: Vec<Action>)
        requires
            old(self).wf(),
        ensures
            final(self).wf(),
            protocol_open_rel(
                *old(self),
                *final(self),
                out@,
                id,
                proto_id,
                address,
                ty,
                opt_key_view(*remote_public_key),
                version@,
            ),
    {
        let mut out: Vec<Action> = Vec::new();

        // Global proto handle processing flow.
        if self.global_handle_installed(proto_id) {
            out.push(
                Action::GlobalConnected {
                    proto_id,
                    id,
                    address,
                    ty,
                    public_key: duplicate_opt_key(remote_public_key),
                    version: clone_string(version),
                },
            );
        } else if self.get_proto_handle(false, proto_id) {
            out.push(Action::GlobalInit { proto_id });
            out.push(
                Action::GlobalConnected {
                    proto_id,
                    id,
                    address,
                    ty,
                    public_key: duplicate_opt_key(remote_public_key),
                    version: clone_string(version),
                },
            );
            self.proto_handles.push(proto_id);
            proof {
                assert forall|a: int, b: int|
                    0 <= a < b < self.proto_handles@.len() implies self.proto_handles@[a]
                    != self.proto_handles@[b] by {
                    if b == self.proto_handles@.len() - 1 {
                        assert(self.proto_handles@[a] == old(self).proto_handles@[a]);
                        assert(!old(self).proto_handles@.contains(proto_id));
                    }
                }
            }
        }
        // Session proto handle processing flow. Regardless of the existence
        // of the per-session handler, which protocols are open must be
        // recorded for each session.
        let session_level = self.get_proto_handle(true, proto_id);
        if session_level {
            out.push(Action::SessionInit { id, proto_id });
            out.push(
                Action::SessionConnected {
                    id,
                    proto_id,
                    address,
                    ty,
                    public_key: duplicate_opt_key(remote_public_key),
                    version: clone_string(version),
                },
            );
        }
        let entry = SessionProtoEntry { id, proto_id, has_handle: session_level };
        match self.find_psh_index(id, proto_id) {
            Some(i) => {
                self.proto_session_handles.set(i, entry);
                proof {
                    let psh = self.proto_session_handles@;
                    assert(psh[i as int] == entry);
                    assert(self.has_session_proto(id, proto_id));
                    assert forall|a: int, b: int|
                        0 <= a < b < psh.len() implies !((#[trigger] psh[a]).id == (
                    #[trigger] psh[b]).id && psh[a].proto_id == psh[b].proto_id) by {
                        assert(old(self).proto_session_handles@[i as int].id == id);
                        assert(old(self).proto_session_handles@[i as int].proto_id == proto_id);
                        if a != i {
                            assert(psh[a] == old(self).proto_session_handles@[a]);
                        }
                        if b != i {
                            assert(psh[b] == old(self).proto_session_handles@[b]);
                        }
                    }
                    if !session_level {
                        assert forall|j: int|
                            0 <= j < psh.len() implies !((#[trigger] psh[j]).id == id
                            && psh[j].proto_id == proto_id && psh[j].has_handle) by {
                            if j != i {
                                assert(psh[j] == old(self).proto_session_handles@[j]);
                                assert(old(self).proto_session_handles@[i as int].id == id);
                                assert(old(self).proto_session_handles@[i as int].proto_id
                                    == proto_id);
                            }
                        }
                    }
                    assert(self.wf());
                }
            },
            None => {
                self.proto_session_handles.push(entry);
                proof {
                    let psh = self.proto_session_handles@;
                    let last = psh.len() - 1;
                    assert(psh[last] == entry);
                    assert(self.has_session_proto(id, proto_id));
                    assert forall|a: int, b: int|
                        0 <= a < b < psh.len() implies !((#[trigger] psh[a]).id == (
                    #[trigger] psh[b]).id && psh[a].proto_id == psh[b].proto_id) by {
                        assert(psh[a] == old(self).proto_session_handles@[a]);
                        if b != last {
                            assert(psh[b] == old(self).proto_session_handles@[b]);
                        }
                    }
                    if !session_level {
                        assert forall|j: int|
                            0 <= j < psh.len() implies !((#[trigger] psh[j]).id == id
                            && psh[j].proto_id == proto_id && psh[j].has_handle) by {
                            if j != last {
                                assert(psh[j] == old(self).proto_session_handles@[j]);
                            }
                        }
                    }
                    assert(self.wf());
                }
            },
        }
        out
    }

    /// Delivers inbound protocol data to the global handler of `proto_id`,
    /// then to the per-session handler at `(id, proto_id)`, each with its own
    /// copy of the bytes.
    pub fn protocol_message(
        &self,
        id: SessionId,
        proto_id: ProtocolId,
        data: &bytes::Bytes,
    ) -> (out: Vec<Action>)
        requires
            self.wf(),
        ensures
            protocol_message_rel(*self, *self, out@, id, proto_id, bytes_view(*data)),
    {
        let mut out: Vec<Action> = Vec::new();
        if self.global_handle_installed(proto_id) {
            out.push(
                Action::GlobalReceived {
                    proto_id,
                    message: Message { id, proto_id, data: bytes_to_vec(data) },
                },
            );
        }
        if self.session_handle_at(id, proto_id) {
            out.push(
                Action::SessionReceived {
                    id,
                    proto_id,
                    message: Message { id, proto_id, data: bytes_to_vec(data) },
                },
            );
        }
        out
    }

    /// Cleans up after protocol `proto_id` closed its substream in session
    /// `id`.
    pub fn protocol_close(&mut self, id: SessionId, proto_id: ProtocolId) -> (out: Vec<Action>)
        requires
            old(self).wf(),
        ensures
            final(self).wf(),
            protocol_close_rel(*old(self), *final(self), out@, id, proto_id),
    {
        let mut out: Vec<Action> = Vec::new();

        // Global proto handle processing flow.
        if self.global_handle_installed(proto_id) {
            out.push(Action::GlobalDisconnected { proto_id, id });
        }
        // Session proto handle processing flow.
        match self.find_psh_index(id, proto_id) {
            Some(i) => {
                let e = self.proto_session_handles[i];
                let _ = self.proto_session_handles.remove(i);
                proof {
                    let pre_psh = old(self).proto_session_handles@;
                    let psh = self.proto_session_handles@;
                    assert forall|a: int, b: int|
                        0 <= a < b < psh.len() implies !((#[trigger] psh[a]).id == (
                    #[trigger] psh[b]).id && psh[a].proto_id == psh[b].proto_id) by {
                        assert(psh[a] == if a < i {
                            pre_psh[a]
                        } else {
                            pre_psh[a + 1]
                        });
                        assert(psh[b] == if b < i {
                            pre_psh[b]
                        } else {
                            pre_psh[b + 1]
                        });
                    }
                    assert forall|j: int|
                        0 <= j < psh.len() implies !((#[trigger] psh[j]).id == id && psh[j].proto_id
                        == proto_id) by {
                        assert(pre_psh[i as int].id == id);
                        assert(pre_psh[i as int].proto_id == proto_id);
                        assert(psh[j] == if j < i {
                            pre_psh[j]
                        } else {
                            pre_psh[j + 1]
                        });
                    }
                    if old(self).session_proto_handle(id, proto_id) {
                        let w = choose|w: int|
                            0 <= w < pre_psh.len() && (#[trigger] pre_psh[w]).id == id
                                && pre_psh[w].proto_id == proto_id && pre_psh[w].has_handle;
                        assert(w == i);
                    }
                }
                if e.has_handle {
                    out.push(Action::SessionDisconnected { id, proto_id });
                }
            },
            None => {
                proof {
                    if old(self).session_proto_handle(id, proto_id) {
                        let w = choose|w: int|
                            0 <= w < old(self).proto_session_handles@.len() && (
                            #[trigger] old(self).proto_session_handles@[w]).id == id && old(
                                self,
                            ).proto_session_handles@[w].proto_id == proto_id && old(
                                self,
                            ).proto_session_handles@[w].has_handle;
                        assert(old(self).has_session_proto(id, proto_id));
                    }
                }
            },
        }
        out
    }

    /// Handles one event uploaded by a session or a handshake task.
    pub fn handle_session_event(&mut self, event: SessionEvent) -> (out: Vec<Action>)
        requires
            old(self).wf(),
            event matches SessionEvent::HandshakeSuccess { .. } ==> old(self).next_session
                < u64::MAX,
            outbound_result(event) ==> old(self).task_count > old(self).dial@.len(),
        ensures
            final(self).wf(),
            handle_session_event_rel(*old(self), *final(self), out@, event),
            final(self).next_session <= old(self).next_session + 1,
            final(self).dial == old(self).dial,
            final(self).listens == old(self).listens,
            final(self).protocol_configs == old(self).protocol_configs,
            final(self).key_pair == old(self).key_pair,
            final(self).task_count <= old(self).task_count,
            final(self).task_count + (if outbound_result(event) { 1int } else { 0int }) >= old(self).task_count,
            final(self).session_event_queue == old(self).session_event_queue,
            final(self).service_context == old(self).service_context,
    {
        match event {
            SessionEvent::SessionClose { id } => self.session_close(id),
            SessionEvent::HandshakeSuccess { handle, public_key, address, ty } => {
                let out = self.session_open(handle, Some(public_key), address, ty);
                let ghost mid = *self;
                if ty == SessionType::Outbound {
                    self.task_count = self.task_count - 1;
                }
                proof {
                    assert(session_open_rel(
                        *old(self),
                        mid,
                        out@,
                        handle,
                        Some(public_key),
                        address,
                        ty,
                    ));
                }
                out
            },
            SessionEvent::HandshakeFail { ty, .. } => {
                if ty == SessionType::Outbound {
                    self.task_count = self.task_count - 1;
                }
                Vec::new()
            },
            SessionEvent::ProtocolMessage { id, proto_id, data } => self.protocol_message(
                id,
                proto_id,
                &data,
            ),
            SessionEvent::ProtocolOpen {
                id,
                proto_id,
                remote_address,
                remote_public_key,
                ty,
                version,
            } => self.protocol_open(id, proto_id, remote_address, ty, &remote_public_key, &version),
            SessionEvent::ProtocolClose { id, proto_id } => self.protocol_close(id, proto_id),
        }
    }

    /// Handles one task sent in from outside through the service context.
    pub fn handle_service_task(&mut self, task: ServiceTask) -> (out: Vec<Action>)
        requires
            old(self).wf(),
            task matches ServiceTask::Dial { .. } ==> old(self).task_count < usize::MAX,
        ensures
            final(self).wf(),
            handle_service_task_rel(*old(self), *final(self), out@, task),
            final(self).next_session == old(self).next_session,
            final(self).listens == old(self).listens,
            final(self).protocol_configs == old(self).protocol_configs,
            final(self).key_pair == old(self).key_pair,
            final(self).task_count <= old(self).task_count + 1,
            final(self).task_count >= old(self).task_count,
            final(self).session_event_queue == old(self).session_event_queue,
            final(self).service_context == old(self).service_context,
    {
        let mut out: Vec<Action> = Vec::new();
        match task {
            ServiceTask::ProtocolMessage { ids, message } => {
                self.filter_broadcast(ids, message);
            },
            ServiceTask::Dial { address } => {
                let started = self.dial(address);
                if started {
                    out.push(Action::StartDial { address });
                }
            },
            ServiceTask::Disconnect { id } => {
                return self.session_close(id);
            },
            ServiceTask::FutureTask { task: t } => {
                out.push(Action::SpawnFuture { task: t });
            },
            ServiceTask::ProtocolNotify { proto_id, token } => {
                if self.global_handle_installed(proto_id) {
                    out.push(Action::GlobalNotify { proto_id, token });
                }
            },
            ServiceTask::ProtocolSessionNotify { id, proto_id, token } => {
                if self.session_handle_at(id, proto_id) {
                    out.push(Action::SessionNotify { id, proto_id, token });
                }
            },
        }
        out
    }

    /// Pushes an event onto the session-event channel, as a session or a
    /// handshake task does; on a full channel the event is dropped and
    /// `false` returned.
    pub fn push_session_event(&mut self, event: SessionEvent) -> (accepted: bool)
        requires
            old(self).wf(),
        ensures
            final(self).wf(),
            *final(self) == (Service {
                session_event_queue: final(self).session_event_queue,
                ..*old(self)
            }),
            final(self).session_event_queue.cap == old(self).session_event_queue.cap,
            accepted == (old(self).session_event_queue.items@.len() < CHANNEL_SIZE),
            accepted ==> final(self).session_event_queue.items@ == old(
                self,
            ).session_event_queue.items@.push(event),
            !accepted ==> final(self).session_event_queue.items@ == old(
                self,
            ).session_event_queue.items@,
    {
        self.session_event_queue.try_send(event)
    }

    /// Takes the oldest pending command off the command channel of session
    /// `id`; the embedding runtime forwards it to the session's task.
    pub fn pop_session_command(&mut self, id: SessionId) -> (r: Option<SessionEvent>)
        requires
            old(self).wf(),
        ensures
            final(self).wf(),
            *final(self) == (Service { sessions: final(self).sessions, ..*old(self) }),
            !old(self).has_session(id) ==> r is None && final(self).sessions@ == old(
                self,
            ).sessions@,
            old(self).has_session(id) ==> exists|i: int|
                {
                    &&& 0 <= i < old(self).sessions@.len()
                    &&& (#[trigger] old(self).sessions@[i]).id == id
                    &&& final(self).sessions@.len() == old(self).sessions@.len()
                    &&& (forall|j: int|
                        0 <= j < old(self).sessions@.len() && j != i ==> final(self).sessions@[j]
                            == old(self).sessions@[j])
                    &&& final(self).sessions@[i].id == id
                    &&& final(self).sessions@[i].sender.cap == old(self).sessions@[i].sender.cap
                    &&& (if old(self).sessions@[i].sender.items@.len() == 0 {
                        r is None && final(self).sessions@[i].sender.items@ == old(
                            self,
                        ).sessions@[i].sender.items@
                    } else {
                        (r matches Some(e) && e == old(self).sessions@[i].sender.items@[0])
                            && final(self).sessions@[i].sender.items@ == old(
                            self,
                        ).sessions@[i].sender.items@.drop_first()
                    })
                },
    {
        match self.find_session_index(id) {
            Some(i) => {
                let r = self.sessions[i].sender.pop_front();
                proof {
                    assert((#[trigger] old(self).sessions@[i as int]).id == id);
                    assert(self.wf());
                }
                r
            },
            None => None,
        }
    }

    /// Whether a per-session handler lives at `(id, proto_id)`.
    fn session_handle_at(&self, id: SessionId, proto_id: ProtocolId) -> (r: bool)
        ensures
            r == self.session_proto_handle(id, proto_id),
    {
        let mut i: usize = 0;
        while i < self.proto_session_handles.len()
            invariant
                i <= self.proto_session_handles@.len(),
                forall|j: int|
                    0 <= j < i ==> !((#[trigger] self.proto_session_handles@[j]).id == id
                        && self.proto_session_handles@[j].proto_id == proto_id
                        && self.proto_session_handles@[j].has_handle),
            decreases self.proto_session_handles@.len() - i,
        {
            let e = &self.proto_session_handles[i];
            if e.id == id && e.proto_id == proto_id && e.has_handle {
                return true;
            }
            i = i + 1;
        }
        false
    }

    /// Index of the per-session registry entry at `(id, proto_id)`, if any.
    fn find_psh_index(&self, id: SessionId, proto_id: ProtocolId) -> (r: Option<usize>)
        ensures
            match r {
                Some(i) => i < self.proto_session_handles@.len()
                    && self.proto_session_handles@[i as int].id == id
                    && self.proto_session_handles@[i as int].proto_id == proto_id,
                None => !self.has_session_proto(id, proto_id),
            },
    {
        let mut i: usize = 0;
        while i < self.proto_session_handles.len()
            invariant
                i <= self.proto_session_handles@.len(),
                forall|j: int|
                    0 <= j < i ==> !((#[trigger] self.proto_session_handles@[j]).id == id
                        && self.proto_session_handles@[j].proto_id == proto_id),
            decreases self.proto_session_handles@.len() - i,
        {
            let e = &self.proto_session_handles[i];
            if e.id == id && e.proto_id == proto_id {
                return Some(i);
            }
            i = i + 1;
        }
        None
    }

    /// Index of the deduplication entry bound to session `id`, if any.
    fn find_pubkey_index(&self, id: SessionId) -> (r: Option<usize>)
        ensures
            match r {
                Some(i) => i < self.remote_pubkeys@.len() && self.remote_pubkeys@[i as int].0 == id,
                None => !self.pubkey_bound_to(id),
            },
    {
        let mut i: usize = 0;
        while i < self.remote_pubkeys.len()
            invariant
                i <= self.remote_pubkeys@.len(),
                forall|j: int| 0 <= j < i ==> (#[trigger] self.remote_pubkeys@[j]).0 != id,
            decreases self.remote_pubkeys@.len() - i,
        {
            if self.remote_pubkeys[i].0 == id {
                return Some(i);
            }
            i = i + 1;
        }
        None
    }

    /// Index of the live session with this id, if any.
    fn find_session_index(&self, id: SessionId) -> (r: Option<usize>)
        ensures
            match r {
                Some(i) => i < self.sessions@.len() && self.sessions@[i as int].id == id,
                None => !self.has_session(id),
            },
    {
        let mut i: usize = 0;
        while i < self.sessions.len()
            invariant
                i <= self.sessions@.len(),
                forall|j: int| 0 <= j < i ==> (#[trigger] self.sessions@[j]).id != id,
            decreases self.sessions@.len() - i,
        {
            if self.sessions[i].id == id {
                return Some(i);
            }
            i = i + 1;
        }
        None
    }

    /// Whether some live session already resolved with this public key.
    fn pubkey_exists(&self, key: &PublicKey) -> (r: bool)
        ensures
            r == self.has_pubkey(key@),
    {
        let mut i: usize = 0;
        while i < self.remote_pubkeys.len()
            invariant
                i <= self.remote_pubkeys@.len(),
                forall|j: int| 0 <= j < i ==> (#[trigger] self.remote_pubkeys@[j]).1@ != key@,
            decreases self.remote_pubkeys@.len() - i,
        {
            if self.remote_pubkeys[i].1.same_key(key) {
                return true;
            }
            i = i + 1;
        }
        false
    }

    /// Whether the global handler of `proto_id` has been instantiated.
    fn global_handle_installed(&self, proto_id: ProtocolId) -> (r: bool)
        ensures
            r == self.global_installed(proto_id),
    {
        let mut i: usize = 0;
        while i < self.proto_handles.len()
            invariant
                i <= self.proto_handles@.len(),
                forall|j: int| 0 <= j < i ==> self.proto_handles@[j] != proto_id,
            decreases self.proto_handles@.len() - i,
        {
            if self.proto_handles[i] == proto_id {
                return true;
            }
            i = i + 1;
        }
        false
    }

    /// Whether the descriptor of `proto_id` provides the asked-for handler
    /// factory: the per-session one with `session`, else the global one. The
    /// handler instance itself is created by the embedding runtime when the
    /// matching init action is performed.
    fn get_proto_handle(&self, session: bool, proto_id: ProtocolId) -> (r: bool)
        ensures
            r == if session {
                self.config_has_session(proto_id)
            } else {
                self.config_has_global(proto_id)
            },
    {
        let mut i: usize = 0;
        while i < self.protocol_configs.len()
            invariant
                i <= self.protocol_configs@.len(),
                forall|j: int|
                    0 <= j < i ==> !((#[trigger] self.protocol_configs@[j]).id == proto_id && (if session {
                        self.protocol_configs@[j].has_session_handle
                    } else {
                        self.protocol_configs@[j].has_global_handle
                    })),
            decreases self.protocol_configs@.len() - i,
        {
            let meta = &self.protocol_configs[i];
            if meta.id == proto_id {
                if session {
                    if meta.has_session_handle {
                        return true;
                    }
                } else {
                    if meta.has_global_handle {
                        return true;
                    }
                }
            }
            i = i + 1;
        }
        false
    }
}

/// Whether a session id stands in a target list.
pub(crate) fn id_in(ids: &Vec<SessionId>, id: SessionId) -> (r: bool)
    ensures
        r == ids@.contains(id),
{
    let mut i: usize = 0;
    while i < ids.len()
        invariant
            i <= ids@.len(),
            forall|j: int| 0 <= j < i ==> ids@[j] != id,
        decreases ids@.len() - i,
    {
        if ids[i] == id {
            return true;
        }
        i = i + 1;
    }
    false
}

/// A copy of a string; the standard library promises the clone equals the
/// original.
pub(crate) fn clone_string(s: &String) -> (r: String)
    ensures
        r == *s,
{
    s.clone()
}

/// A copy of a vector of strings, element for element.
pub(crate) fn clone_strings(v: &Vec<String>) -> (r: Vec<String>)
    ensures
        r.deep_view() == v.deep_view(),
{
    let mut r: Vec<String> = Vec::new();
    let mut i: usize = 0;
    while i < v.len()
        invariant
            i <= v@.len(),
            r@.len() == i,
            forall|j: int| 0 <= j < i ==> (#[trigger] r@[j])@ == v@[j]@,
        decreases v@.len() - i,
    {
        r.push(clone_string(&v[i]));
        i = i + 1;
    }
    proof {
        assert(r.deep_view() =~= v.deep_view());
    }
    r
}

} // verus!
