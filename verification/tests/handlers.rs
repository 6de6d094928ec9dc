use p2p::events::{Action, ServiceEvent, ServiceTask, SessionEvent};
use p2p::service::Service;
use p2p::types::{Message, NetAddr, ProtocolMeta, SessionType};

fn meta(id: u64, name: &str, global: bool, session: bool) -> ProtocolMeta {
    ProtocolMeta {
        id,
        name: name.to_string(),
        support_versions: vec!["0.0.1".to_string()],
        has_global_handle: global,
        has_session_handle: session,
    }
}

fn a() -> NetAddr {
    NetAddr { ip: 9, port: 9000 }
}

#[test]
fn protocol_open_close_fanout() {
    // Session 1 opens protocols p (global + per-session) and q (global
    // only). The open instantiates and connects the handlers in order; the
    // session close disconnects the per-session handler first, then the
    // global handlers of exactly the protocols that were open.
    let mut svc = Service::new(vec![meta(1, "p", true, true), meta(2, "q", true, false)], false, true);
    let v = "0.0.1".to_string();

    let acts_p = svc.protocol_open(1, 1, a(), SessionType::Inbound, &None, &v);
    assert_eq!(acts_p.len(), 4);
    assert!(matches!(acts_p[0], Action::GlobalInit { proto_id: 1 }));
    assert!(matches!(acts_p[1], Action::GlobalConnected { proto_id: 1, id: 1, .. }));
    assert!(matches!(acts_p[2], Action::SessionInit { id: 1, proto_id: 1 }));
    assert!(matches!(acts_p[3], Action::SessionConnected { id: 1, proto_id: 1, .. }));

    let acts_q = svc.protocol_open(1, 2, a(), SessionType::Inbound, &None, &v);
    assert_eq!(acts_q.len(), 2);
    assert!(matches!(acts_q[0], Action::GlobalInit { proto_id: 2 }));
    assert!(matches!(acts_q[1], Action::GlobalConnected { proto_id: 2, id: 1, .. }));

    let acts_close = svc.session_close(1);
    assert_eq!(acts_close.len(), 4);
    assert!(matches!(
        acts_close[0],
        Action::ServiceNotify { event: ServiceEvent::SessionClose { id: 1 } }
    ));
    assert!(matches!(acts_close[1], Action::SessionDisconnected { id: 1, proto_id: 1 }));
    assert!(matches!(acts_close[2], Action::GlobalDisconnected { proto_id: 1, id: 1 }));
    assert!(matches!(acts_close[3], Action::GlobalDisconnected { proto_id: 2, id: 1 }));
}

#[test]
fn global_init_called_once_across_sessions() {
    let mut svc = Service::new(vec![meta(1, "p", true, true)], false, true);
    let v = "0.0.1".to_string();
    let first = svc.protocol_open(1, 1, a(), SessionType::Inbound, &None, &v);
    let second = svc.protocol_open(2, 1, a(), SessionType::Inbound, &None, &v);
    let inits = |acts: &Vec<Action>| {
        acts.iter().filter(|x| matches!(x, Action::GlobalInit { .. })).count()
    };
    assert_eq!(inits(&first), 1);
    assert_eq!(inits(&second), 0);
    assert!(matches!(second[0], Action::GlobalConnected { proto_id: 1, id: 2, .. }));
}

#[test]
fn protocol_message_reaches_global_then_session_handler() {
    let mut svc = Service::new(vec![meta(1, "p", true, true)], false, true);
    let v = "0.0.1".to_string();
    let _ = svc.protocol_open(1, 1, a(), SessionType::Inbound, &None, &v);

    assert!(svc.push_session_event(SessionEvent::ProtocolMessage {
        id: 1,
        proto_id: 1,
        data: bytes::Bytes::from(vec![1u8, 2, 3]),
    }));
    let (_, acts) = svc.poll(&Vec::new(), &Vec::new());
    assert_eq!(acts.len(), 2);
    match &acts[0] {
        Action::GlobalReceived { proto_id, message } => {
            assert_eq!(*proto_id, 1);
            assert_eq!(message.id, 1);
            assert_eq!(message.proto_id, 1);
            assert_eq!(message.data, vec![1, 2, 3]);
        },
        other => panic!("expected GlobalReceived first, got {:?}", other),
    }
    match &acts[1] {
        Action::SessionReceived { id, proto_id, message } => {
            assert_eq!(*id, 1);
            assert_eq!(*proto_id, 1);
            assert_eq!(message.data, vec![1, 2, 3]);
        },
        other => panic!("expected SessionReceived second, got {:?}", other),
    }
}

#[test]
fn protocol_close_removes_entry_and_disconnects() {
    let mut svc = Service::new(vec![meta(1, "p", true, true)], false, true);
    let v = "0.0.1".to_string();
    let _ = svc.protocol_open(1, 1, a(), SessionType::Inbound, &None, &v);

    let acts = svc.protocol_close(1, 1);
    assert_eq!(acts.len(), 2);
    assert!(matches!(acts[0], Action::GlobalDisconnected { proto_id: 1, id: 1 }));
    assert!(matches!(acts[1], Action::SessionDisconnected { id: 1, proto_id: 1 }));
    assert!(svc.proto_session_handles.is_empty());

    // A message after the close reaches only the global handler.
    let acts2 = svc.protocol_message(1, 1, &bytes::Bytes::from(vec![5u8]));
    assert_eq!(acts2.len(), 1);
    assert!(matches!(acts2[0], Action::GlobalReceived { proto_id: 1, .. }));
}

#[test]
fn notify_tasks_reach_live_handlers_only() {
    let mut svc = Service::new(vec![meta(1, "p", true, true)], false, true);
    let v = "0.0.1".to_string();
    let _ = svc.protocol_open(1, 1, a(), SessionType::Inbound, &None, &v);

    let g = svc.handle_service_task(ServiceTask::ProtocolNotify { proto_id: 1, token: 42 });
    assert_eq!(g.len(), 1);
    assert!(matches!(g[0], Action::GlobalNotify { proto_id: 1, token: 42 }));

    let s = svc.handle_service_task(ServiceTask::ProtocolSessionNotify {
        id: 1,
        proto_id: 1,
        token: 43,
    });
    assert_eq!(s.len(), 1);
    assert!(matches!(s[0], Action::SessionNotify { id: 1, proto_id: 1, token: 43 }));

    // Unknown protocol or session: no call.
    assert!(svc.handle_service_task(ServiceTask::ProtocolNotify { proto_id: 9, token: 1 }).is_empty());
    assert!(svc
        .handle_service_task(ServiceTask::ProtocolSessionNotify { id: 2, proto_id: 1, token: 1 })
        .is_empty());
}

#[test]
fn future_task_is_spawned() {
    let mut svc = Service::new(Vec::new(), false, true);
    svc.service_context.future_task(77);
    let (_, acts) = svc.poll(&Vec::new(), &Vec::new());
    assert_eq!(acts.len(), 1);
    assert!(matches!(acts[0], Action::SpawnFuture { task: 77 }));
}

#[test]
fn bounded_channel_drops_overflow() {
    // 1000 tasks submitted in one synchronous burst with the loop
    // suspended: the channel keeps the first 256 and drops the rest
    // silently; the next iteration processes those 256 in order.
    let mut svc = Service::new(vec![meta(1, "p", true, false)], false, true);
    let v = "0.0.1".to_string();
    let _ = svc.protocol_open(1, 1, a(), SessionType::Inbound, &None, &v);

    for t in 0..1000u64 {
        let _ = svc
            .service_context
            .sender()
            .try_send(ServiceTask::ProtocolNotify { proto_id: 1, token: t });
    }
    assert_eq!(svc.service_context.service_task_sender.len(), 256);

    let (_, acts) = svc.poll(&Vec::new(), &Vec::new());
    let tokens: Vec<u64> = acts
        .iter()
        .filter_map(|x| match x {
            Action::GlobalNotify { proto_id: 1, token } => Some(*token),
            _ => None,
        })
        .collect();
    let expected: Vec<u64> = (0..256).collect();
    assert_eq!(tokens, expected);
    assert_eq!(svc.service_context.service_task_sender.len(), 0);
}

#[test]
fn default_message_is_empty() {
    let m = Message::default();
    assert_eq!(m.id, 0);
    assert_eq!(m.proto_id, 0);
    assert!(m.data.is_empty());
}
