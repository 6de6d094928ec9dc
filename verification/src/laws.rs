//! Laws of the service: properties that hold across transitions, stated over
//! the transition relations and proved once and for all. Properties of a
//! single transition — when a poll reports completion, that a broadcast makes
//! exactly one send attempt per live session, that a duplicate dial changes
//! nothing — live in the `ensures` of the functions themselves.

use vstd::prelude::*;

use crate::events::{Action, ServiceEvent, SessionEvent};
use crate::poll::{handshake_rel, step_rel, steps_rel, PollStep};
use crate::service::{
    handle_service_task_rel, handle_session_event_rel, is_session_connected, is_session_received,
    opt_key_view, protocol_close_rel, protocol_message_rel, protocol_open_rel, session_close_rel,
    session_open_rel, Service,
};
use crate::types::{NetAddr, ProtocolId, PublicKey, SessionId, SessionType};

verus! {

/// The action reports `SessionOpen` to the service handle.
pub open spec fn is_open_notify(a: Action) -> bool {
    a matches Action::ServiceNotify { event: ServiceEvent::SessionOpen { .. } }
}

/// The action reports `SessionClose` to the service handle.
pub open spec fn is_close_notify(a: Action) -> bool {
    a matches Action::ServiceNotify { event: ServiceEvent::SessionClose { .. } }
}

/// Law: opening a session allocates a fresh id — one that identifies no
/// session live before, because the allocator only grows past every id in
/// use — and reports exactly one `SessionOpen`, carrying the actual
/// direction, as the last action; no session already live is disturbed.
pub proof fn lemma_session_open_fresh_id(
    pre: Service,
    post: Service,
    out: Seq<Action>,
    handle: u64,
    key: Option<PublicKey>,
    address: NetAddr,
    ty: SessionType,
)
    requires
        pre.wf(),
        !pre.dup_key(key),
        session_open_rel(pre, post, out, handle, key, address, ty),
    ensures
        post.next_session == pre.next_session + 1,
        !pre.has_session(post.next_session),
        post.has_session(post.next_session),
        forall|sid: SessionId| pre.has_session(sid) ==> post.has_session(sid),
        crate::service::is_session_open_notify(
            out.last(),
            post.next_session,
            address,
            ty,
            opt_key_view(key),
        ),
        forall|j: int| 0 <= j < out.len() - 1 ==> !is_open_notify(#[trigger] out[j]),
{
    let sid = post.next_session;
    let opens: int = if ty == SessionType::Outbound {
        pre.protocol_configs@.len() as int
    } else {
        0int
    };
    assert(!pre.has_session(sid)) by {
        assert forall|i: int| 0 <= i < pre.sessions@.len() implies (#[trigger] pre.sessions@[i]).id
            != sid by {
            assert(pre.sessions@[i].id <= pre.next_session);
        }
    }
    assert(post.has_session(sid)) by {
        assert(post.sessions@[post.sessions@.len() - 1].id == sid);
    }
    assert forall|s: SessionId| pre.has_session(s) implies post.has_session(s) by {
        let i = choose|i: int| 0 <= i < pre.sessions@.len() && (#[trigger] pre.sessions@[i]).id == s;
        assert(post.sessions@[i] == pre.sessions@[i]);
    }
    assert(out.last() == out[opens + 1]);
    assert forall|j: int| 0 <= j < out.len() - 1 implies !is_open_notify(#[trigger] out[j]) by {
        if j < opens {
            assert(crate::service::is_open_proto_stream(
                out[j],
                sid,
                pre.protocol_configs@[j].name@,
            ));
        } else {
            assert(crate::service::is_spawn_session(
                out[j],
                sid,
                handle,
                address,
                ty,
                opt_key_view(key),
            ));
        }
    }
}

/// Law: when two authenticated connections resolve with the same public key,
/// the second is shut down silently — no session id allocated, no
/// `SessionOpen` reported, the service unchanged.
pub proof fn lemma_duplicate_key_dedup(
    pre: Service,
    post: Service,
    out: Seq<Action>,
    handle: u64,
    key: PublicKey,
    address: NetAddr,
    ty: SessionType,
)
    requires
        pre.wf(),
        pre.has_pubkey(key@),
        session_open_rel(pre, post, out, handle, Some(key), address, ty),
    ensures
        post == pre,
        out.len() == 1,
        (out[0] matches Action::ShutdownStream { handle: h } && h == handle),
        forall|j: int| 0 <= j < out.len() ==> !is_open_notify(#[trigger] out[j]),
{
}

/// Law: after a session close nothing of the session remains — not in the
/// session registry, not in the public-key map, not in the per-session
/// handler registry — exactly one `SessionClose` is reported, and every
/// other session is untouched.
pub proof fn lemma_session_close_cleans(
    pre: Service,
    post: Service,
    out: Seq<Action>,
    id: SessionId,
)
    requires
        pre.wf(),
        session_close_rel(pre, post, out, id),
    ensures
        !post.has_session(id),
        !post.pubkey_bound_to(id),
        forall|p: ProtocolId| !post.has_session_proto(id, p),
        forall|sid: SessionId|
            sid != id ==> (post.has_session(sid) <==> pre.has_session(sid)),
        is_close_notify(out[if pre.has_session(id) {
            1int
        } else {
            0int
        }]),
{
    let chan: int = if pre.has_session(id) {
        1int
    } else {
        0int
    };
    assert(!post.has_session(id)) by {
        if pre.has_session(id) {
            let i = choose|i: int|
                0 <= i < pre.sessions@.len() && (#[trigger] pre.sessions@[i]).id == id
                    && post.sessions@ == pre.sessions@.remove(i);
            assert forall|j: int| 0 <= j < post.sessions@.len() implies (
            #[trigger] post.sessions@[j]).id != id by {
                assert(post.sessions@[j] == if j < i {
                    pre.sessions@[j]
                } else {
                    pre.sessions@[j + 1]
                });
            }
        } else {
            assert forall|j: int| 0 <= j < post.sessions@.len() implies (
            #[trigger] post.sessions@[j]).id != id by {}
        }
    }
    assert(!post.pubkey_bound_to(id)) by {
        if pre.pubkey_bound_to(id) {
            let i = choose|i: int|
                0 <= i < pre.remote_pubkeys@.len() && (#[trigger] pre.remote_pubkeys@[i]).0 == id
                    && post.remote_pubkeys@ == pre.remote_pubkeys@.remove(i);
            assert forall|j: int| 0 <= j < post.remote_pubkeys@.len() implies (
            #[trigger] post.remote_pubkeys@[j]).0 != id by {
                assert(post.remote_pubkeys@[j] == if j < i {
                    pre.remote_pubkeys@[j]
                } else {
                    pre.remote_pubkeys@[j + 1]
                });
            }
        }
    }
    assert forall|p: ProtocolId| !post.has_session_proto(id, p) by {
        crate::service::lemma_entries_not_for(pre.proto_session_handles@, id);
    }
    assert forall|sid: SessionId|
        sid != id implies (post.has_session(sid) <==> pre.has_session(sid)) by {
        if pre.has_session(id) {
            let i = choose|i: int|
                0 <= i < pre.sessions@.len() && (#[trigger] pre.sessions@[i]).id == id
                    && post.sessions@ == pre.sessions@.remove(i);
            if pre.has_session(sid) {
                let w = choose|w: int|
                    0 <= w < pre.sessions@.len() && (#[trigger] pre.sessions@[w]).id == sid;
                assert(w != i);
                if w < i {
                    assert(post.sessions@[w] == pre.sessions@[w]);
                } else {
                    assert(post.sessions@[w - 1] == pre.sessions@[w]);
                }
            }
            if post.has_session(sid) {
                let w = choose|w: int|
                    0 <= w < post.sessions@.len() && (#[trigger] post.sessions@[w]).id == sid;
                assert(post.sessions@[w] == if w < i {
                    pre.sessions@[w]
                } else {
                    pre.sessions@[w + 1]
                });
            }
        }
    }
    assert(out[chan] == (if pre.has_session(id) {
        seq![Action::SendSessionClose { id }]
    } else {
        Seq::<Action>::empty()
    }).add(seq![Action::ServiceNotify { event: ServiceEvent::SessionClose { id } }])[chan]);
}

/// Law: a per-session handler lives exactly from protocol open to protocol
/// close. With a per-session factory configured, the open connects it, as
/// the last action of the open; a message in between reaches it, after the
/// global delivery; the close disconnects it exactly once, as the last
/// action of the close, and removes the registry entry.
pub proof fn lemma_protocol_lifecycle(
    s0: Service,
    s1: Service,
    s2: Service,
    s3: Service,
    o1: Seq<Action>,
    o2: Seq<Action>,
    o3: Seq<Action>,
    id: SessionId,
    pid: ProtocolId,
    address: NetAddr,
    ty: SessionType,
    key: Option<Seq<u8>>,
    version: Seq<char>,
    data: Seq<u8>,
)
    requires
        s0.wf(),
        s0.config_has_session(pid),
        protocol_open_rel(s0, s1, o1, id, pid, address, ty, key, version),
        protocol_message_rel(s1, s2, o2, id, pid, data),
        protocol_close_rel(s2, s3, o3, id, pid),
    ensures
        s1.has_session_proto(id, pid),
        is_session_connected(o1.last(), id, pid, address, ty, key, version),
        forall|j: int|
            0 <= j < o1.len() - 1 ==> !(#[trigger] o1[j] matches Action::SessionConnected { .. }),
        is_session_received(o2.last(), id, pid, data),
        (o3.last() matches Action::SessionDisconnected { id: i, proto_id: p } && i == id && p
            == pid),
        forall|j: int|
            0 <= j < o3.len() - 1 ==> !(#[trigger] o3[j] matches Action::SessionDisconnected {
                ..
            }),
        !s3.has_session_proto(id, pid),
{
    let globals: int = if s0.global_installed(pid) {
        1int
    } else if s0.config_has_global(pid) {
        2int
    } else {
        0int
    };
    assert(o1.last() == o1[globals + 1]);
    assert forall|j: int|
        0 <= j < o1.len() - 1 implies !(#[trigger] o1[j] matches Action::SessionConnected {
        ..
    }) by {
        if j == globals {
            assert(o1[j] matches Action::SessionInit { .. });
        }
    }
    assert(s1.session_proto_handle(id, pid));
    assert(s2 == s1);
    let g2: int = if s2.global_installed(pid) {
        1int
    } else {
        0int
    };
    assert(o2.last() == o2[g2]);
    assert(o3.last() == o3[g2]);
    assert forall|j: int|
        0 <= j < o3.len() - 1 implies !(#[trigger] o3[j] matches Action::SessionDisconnected {
        ..
    }) by {
        assert(o3[j] matches Action::GlobalDisconnected { .. });
    }
}

/// Law: a global handler is instantiated, and its `init` called, at most
/// once in a service lifetime. A protocol open instantiates it only when it
/// does not live yet; afterwards it lives, and a second open of the same
/// protocol — in any session — emits no `GlobalInit` again.
pub proof fn lemma_global_init_once(
    s0: Service,
    s1: Service,
    s2: Service,
    o1: Seq<Action>,
    o2: Seq<Action>,
    id1: SessionId,
    id2: SessionId,
    pid: ProtocolId,
    a1: NetAddr,
    a2: NetAddr,
    t1: SessionType,
    t2: SessionType,
    k1: Option<Seq<u8>>,
    k2: Option<Seq<u8>>,
    v1: Seq<char>,
    v2: Seq<char>,
)
    requires
        s0.wf(),
        protocol_open_rel(s0, s1, o1, id1, pid, a1, t1, k1, v1),
        protocol_open_rel(s1, s2, o2, id2, pid, a2, t2, k2, v2),
    ensures
        s0.config_has_global(pid) ==> s1.global_installed(pid),
        forall|j: int| 0 <= j < o2.len() ==> !(#[trigger] o2[j] matches Action::GlobalInit { .. }),
        forall|j: int|
            1 <= j < o1.len() ==> !(#[trigger] o1[j] matches Action::GlobalInit { .. }),
{
    if s0.config_has_global(pid) {
        if !s0.global_installed(pid) {
            assert(s1.proto_handles@ == s0.proto_handles@.push(pid));
            assert(s1.proto_handles@[s1.proto_handles@.len() - 1] == pid);
            assert(s1.global_installed(pid));
        } else {
            let w = choose|w: int|
                0 <= w < s0.proto_handles@.len() && s0.proto_handles@[w] == pid;
            assert(s1.proto_handles@[w] == pid);
        }
    }
    assert(s1.config_has_global(pid) == s0.config_has_global(pid));
    let globals2: int = if s1.global_installed(pid) {
        1int
    } else if s1.config_has_global(pid) {
        2int
    } else {
        0int
    };
    assert forall|j: int|
        0 <= j < o2.len() implies !(#[trigger] o2[j] matches Action::GlobalInit { .. }) by {
        if s1.global_installed(pid) {
            if j == 0 {
                assert(crate::service::is_global_connected(o2[0], pid, id2, a2, t2, k2, v2));
            } else if j < globals2 {
            } else if j == globals2 {
                assert(o2[j] matches Action::SessionInit { .. });
            } else {
                assert(is_session_connected(o2[j], id2, pid, a2, t2, k2, v2));
            }
        } else {
            assert(!s1.config_has_global(pid));
            if j == globals2 {
                assert(o2[j] matches Action::SessionInit { .. });
            } else {
                assert(is_session_connected(o2[j], id2, pid, a2, t2, k2, v2));
            }
        }
    }
    let globals1: int = if s0.global_installed(pid) {
        1int
    } else if s0.config_has_global(pid) {
        2int
    } else {
        0int
    };
    assert forall|j: int|
        1 <= j < o1.len() implies !(#[trigger] o1[j] matches Action::GlobalInit { .. }) by {
        if j < globals1 {
            assert(crate::service::is_global_connected(o1[j], pid, id1, a1, t1, k1, v1));
        } else if j == globals1 {
            assert(o1[j] matches Action::SessionInit { .. });
        } else {
            assert(is_session_connected(o1[j], id1, pid, a1, t1, k1, v1));
        }
    }
}

/// Law: no dispatch of the event loop uninstalls a global handler, and
/// none winds the session id allocator back: what `init` created lives until
/// service shutdown, and allocated ids only grow.
pub proof fn lemma_step_monotone(pre: Service, post: Service, out: Seq<Action>, step: PollStep)
    requires
        step_rel(pre, post, out, step),
    ensures
        post.next_session >= pre.next_session,
        forall|q: ProtocolId| pre.global_installed(q) ==> post.global_installed(q),
{
    match step {
        PollStep::DialEntry { address, connect } => {
            match connect {
                crate::events::DialPoll::Ready { handle } => {
                    lemma_handshake_monotone(pre, post, out, handle, address, SessionType::Outbound);
                },
                _ => {},
            }
        },
        PollStep::ListenEntry { address, accept } => {
            match accept {
                crate::events::ListenPoll::Accepted { handle } => {
                    let mid = choose|mid: Service|
                        #[trigger] handshake_rel(pre, mid, out, handle, address, SessionType::Inbound)
                            && post == (Service { listens: post.listens, ..mid }) && post.listens@
                            == mid.listens@.push(address);
                    lemma_handshake_monotone(pre, mid, out, handle, address, SessionType::Inbound);
                },
                _ => {},
            }
        },
        PollStep::Event { event } => {
            match event {
                SessionEvent::HandshakeSuccess { handle, public_key, address, ty } => {
                    let mid = choose|mid: Service|
                        #[trigger] session_open_rel(
                            pre,
                            mid,
                            out,
                            handle,
                            Some(public_key),
                            address,
                            ty,
                        ) && post == (Service { task_count: post.task_count, ..mid });
                    assert(post.proto_handles@ == pre.proto_handles@);
                },
                SessionEvent::ProtocolOpen { .. } => {},
                _ => {},
            }
        },
        PollStep::Task { task } => {},
    }
    assert forall|q: ProtocolId| pre.global_installed(q) implies post.global_installed(q) by {
        let w = choose|w: int| 0 <= w < pre.proto_handles@.len() && pre.proto_handles@[w] == q;
        assert(post.proto_handles@[w] == q);
    }
}

/// The handshake driver neither uninstalls global handlers nor winds the id
/// allocator back.
proof fn lemma_handshake_monotone(
    pre: Service,
    post: Service,
    out: Seq<Action>,
    handle: u64,
    address: NetAddr,
    ty: SessionType,
)
    requires
        handshake_rel(pre, post, out, handle, address, ty),
    ensures
        post.proto_handles@ == pre.proto_handles@,
        post.next_session >= pre.next_session,
{
    if pre.key_pair {
    } else {
        let mid = choose|mid: Service|
            #[trigger] session_open_rel(pre, mid, out, handle, None, address, ty) && post
                == (Service { task_count: post.task_count, ..mid });
    }
}

/// Law over whole iterations: whatever chain of dispatches the loop runs,
/// every installed global handler stays installed and the id allocator only
/// grows.
pub proof fn lemma_steps_monotone(
    pre: Service,
    post: Service,
    out: Seq<Action>,
    steps: Seq<PollStep>,
)
    requires
        steps_rel(pre, post, out, steps),
    ensures
        post.next_session >= pre.next_session,
        forall|q: ProtocolId| pre.global_installed(q) ==> post.global_installed(q),
    decreases steps.len(),
{
    if steps.len() > 0 {
        let (mid, cut): (Service, int) = choose|mid: Service, cut: int|
            0 <= cut <= out.len() && steps_rel(pre, mid, out.take(cut), steps.drop_last())
                && #[trigger] step_rel(mid, post, out.skip(cut), steps.last());
        lemma_steps_monotone(pre, mid, out.take(cut), steps.drop_last());
        lemma_step_monotone(mid, post, out.skip(cut), steps.last());
    }
}

/// Law: a session id is never reused. Whatever the loop does between two
/// session opens, the second open allocates a strictly larger id than the
/// first, so the first id never identifies a second session.
pub proof fn lemma_session_ids_never_reused(
    s0: Service,
    s1: Service,
    s2: Service,
    s3: Service,
    o1: Seq<Action>,
    o2: Seq<Action>,
    o3: Seq<Action>,
    steps: Seq<PollStep>,
    h1: u64,
    h2: u64,
    k1: Option<PublicKey>,
    k2: Option<PublicKey>,
    a1: NetAddr,
    a2: NetAddr,
    t1: SessionType,
    t2: SessionType,
)
    requires
        !s0.dup_key(k1),
        session_open_rel(s0, s1, o1, h1, k1, a1, t1),
        steps_rel(s1, s2, o2, steps),
        !s2.dup_key(k2),
        session_open_rel(s2, s3, o3, h2, k2, a2, t2),
    ensures
        s3.next_session > s1.next_session,
{
    lemma_steps_monotone(s1, s2, o2, steps);
}

} // verus!