use p2p::events::{Action, DialPoll, ServiceEvent, ServiceTask, SessionEvent};
use p2p::service::Service;
use p2p::types::{Message, NetAddr, PublicKey, SessionType};

fn a(ip: u32) -> NetAddr {
    NetAddr { ip, port: 8000 }
}

fn open_sessions(svc: &mut Service, n: u64) {
    for i in 1..=n {
        let _ = svc.session_open(100 + i, None, a(i as u32), SessionType::Inbound);
    }
}

fn payload_of(e: &SessionEvent) -> Vec<u8> {
    p2p::events::event_payload(e).expect("expected a protocol message command")
}

#[test]
fn broadcast_sends_once_per_live_session() {
    // ids = None: exactly one send attempt per live session, each carrying
    // the same bytes.
    let mut svc = Service::new(Vec::new(), false, true);
    open_sessions(&mut svc, 3);

    svc.filter_broadcast(None, Message { id: 0, proto_id: 5, data: vec![1, 2, 3] });
    for sid in 1..=3u64 {
        let cmd = svc.pop_session_command(sid).expect("one command per session");
        match &cmd {
            SessionEvent::ProtocolMessage { id, proto_id, .. } => {
                assert_eq!(*id, sid);
                assert_eq!(*proto_id, 5);
            },
            other => panic!("expected ProtocolMessage, got {:?}", other),
        }
        assert_eq!(payload_of(&cmd), vec![1, 2, 3]);
        assert!(svc.pop_session_command(sid).is_none());
    }
}

#[test]
fn filtered_broadcast_targets_listed_sessions() {
    let mut svc = Service::new(Vec::new(), false, true);
    open_sessions(&mut svc, 3);

    svc.filter_broadcast(Some(vec![1, 3]), Message { id: 0, proto_id: 5, data: vec![4, 5] });
    assert_eq!(payload_of(&svc.pop_session_command(1).unwrap()), vec![4, 5]);
    assert!(svc.pop_session_command(2).is_none());
    assert_eq!(payload_of(&svc.pop_session_command(3).unwrap()), vec![4, 5]);
}

#[test]
fn send_message_targets_one_session() {
    let mut svc = Service::new(Vec::new(), false, true);
    open_sessions(&mut svc, 2);

    svc.send_message(Message { id: 2, proto_id: 9, data: vec![7] });
    assert!(svc.pop_session_command(1).is_none());
    let cmd = svc.pop_session_command(2).unwrap();
    assert_eq!(payload_of(&cmd), vec![7]);

    // An id with no live session sends nowhere.
    svc.send_message(Message { id: 9, proto_id: 9, data: vec![8] });
    assert!(svc.pop_session_command(1).is_none());
    assert!(svc.pop_session_command(2).is_none());
}

#[test]
fn broadcast_task_through_context() {
    let mut svc = Service::new(Vec::new(), false, true);
    open_sessions(&mut svc, 2);

    svc.service_context.send_message(None, Message { id: 0, proto_id: 1, data: vec![6, 6] });
    let (_, acts) = svc.poll(&Vec::new(), &Vec::new());
    assert!(acts.is_empty());
    assert_eq!(payload_of(&svc.pop_session_command(1).unwrap()), vec![6, 6]);
    assert_eq!(payload_of(&svc.pop_session_command(2).unwrap()), vec![6, 6]);
}

#[test]
fn duplicate_dial_is_dropped() {
    // A second dial to an address already in flight neither queues a new
    // connect nor changes the outbound counter.
    let mut svc = Service::new(Vec::new(), false, false);
    let target = a(1);
    assert!(svc.dial(target));
    assert_eq!(svc.task_count, 1);
    assert!(!svc.dial(target));
    assert_eq!(svc.task_count, 1);
    assert_eq!(svc.dial.len(), 1);

    // The same rule applies to a dial task from a handler.
    let acts = svc.handle_service_task(ServiceTask::Dial { address: target });
    assert!(acts.is_empty());
    assert_eq!(svc.task_count, 1);
    assert_eq!(svc.dial.len(), 1);

    // A different address is queued and counted.
    let acts2 = svc.handle_service_task(ServiceTask::Dial { address: a(2) });
    assert_eq!(acts2.len(), 1);
    assert!(matches!(acts2[0], Action::StartDial { address: NetAddr { ip: 2, port: 8000 } }));
    assert_eq!(svc.task_count, 2);
    assert_eq!(svc.dial.len(), 2);
}

#[test]
fn dial_task_through_context_starts_connect() {
    let mut svc = Service::new(Vec::new(), false, true);
    svc.service_context.dial(a(4));
    let (_, acts) = svc.poll(&Vec::new(), &Vec::new());
    assert_eq!(acts.len(), 1);
    assert!(matches!(acts[0], Action::StartDial { address: NetAddr { ip: 4, port: 8000 } }));
    assert_eq!(svc.dial.len(), 1);

    // The queued connect is polled on the next iteration.
    let (_, acts2) = svc.poll(&vec![DialPoll::Pending], &Vec::new());
    assert!(acts2.is_empty());
    assert_eq!(svc.dial.len(), 1);
}

#[test]
fn outbound_session_requests_all_protocols() {
    let mut svc = Service::new(
        vec![
            p2p::types::ProtocolMeta {
                id: 1,
                name: "p".to_string(),
                support_versions: vec!["0.0.1".to_string()],
                has_global_handle: false,
                has_session_handle: false,
            },
            p2p::types::ProtocolMeta {
                id: 2,
                name: "q".to_string(),
                support_versions: vec!["0.0.1".to_string()],
                has_global_handle: false,
                has_session_handle: false,
            },
        ],
        false,
        true,
    );
    let acts = svc.session_open(50, None, a(1), SessionType::Outbound);
    assert_eq!(acts.len(), 4);
    match &acts[0] {
        Action::OpenProtoStream { id, name } => {
            assert_eq!(*id, 1);
            assert_eq!(name, "p");
        },
        other => panic!("expected OpenProtoStream, got {:?}", other),
    }
    match &acts[1] {
        Action::OpenProtoStream { id, name } => {
            assert_eq!(*id, 1);
            assert_eq!(name, "q");
        },
        other => panic!("expected OpenProtoStream, got {:?}", other),
    }
    assert!(matches!(acts[2], Action::SpawnSession { id: 1, handle: 50, .. }));
    assert!(matches!(
        acts[3],
        Action::ServiceNotify { event: ServiceEvent::SessionOpen { id: 1, .. } }
    ));

    // An inbound session requests nothing.
    let acts2 = svc.session_open(51, None, a(2), SessionType::Inbound);
    assert_eq!(acts2.len(), 2);
    assert!(matches!(acts2[0], Action::SpawnSession { id: 2, .. }));
}

#[test]
fn context_exposes_protocol_table() {
    let svc = Service::new(
        vec![p2p::types::ProtocolMeta {
            id: 3,
            name: "chat".to_string(),
            support_versions: vec!["0.0.1".to_string(), "0.0.2".to_string()],
            has_global_handle: true,
            has_session_handle: false,
        }],
        false,
        false,
    );
    let infos = svc.service_context.protocols();
    assert_eq!(infos.len(), 1);
    assert_eq!(infos[0].0, 3);
    assert_eq!(infos[0].1.name, "chat");
    assert_eq!(infos[0].1.support_versions, vec!["0.0.1".to_string(), "0.0.2".to_string()]);
}

#[test]
fn session_event_channel_is_bounded() {
    let mut svc = Service::new(Vec::new(), false, true);
    let mut accepted = 0;
    for i in 0..300u64 {
        if svc.push_session_event(SessionEvent::HandshakeFail {
            ty: SessionType::Inbound,
            error: p2p::types::IoError { kind: i as u32 },
        }) {
            accepted += 1;
        }
    }
    assert_eq!(accepted, 256);
    assert_eq!(svc.session_event_queue.len(), 256);
}

#[test]
fn session_channel_is_bounded_under_broadcast() {
    let mut svc = Service::new(Vec::new(), false, true);
    open_sessions(&mut svc, 1);
    for _ in 0..300 {
        svc.broadcast(Message { id: 0, proto_id: 1, data: vec![1] });
    }
    let mut drained = 0;
    while svc.pop_session_command(1).is_some() {
        drained += 1;
    }
    assert_eq!(drained, 256);
}

#[test]
fn key_copy_and_equality() {
    let k = PublicKey { bytes: vec![1, 2, 3] };
    let d = k.duplicate();
    assert!(k.same_key(&d));
    assert!(!k.same_key(&PublicKey { bytes: vec![1, 2] }));
    assert!(!k.same_key(&PublicKey { bytes: vec![1, 2, 4] }));
    assert_eq!(d.bytes, vec![1, 2, 3]);
}
