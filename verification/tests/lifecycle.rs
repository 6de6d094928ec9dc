use p2p::events::{Action, DialPoll, ListenPoll, ServiceEvent, ServicePoll, SessionEvent};
use p2p::service::Service;
use p2p::types::{IoError, NetAddr, PublicKey, SessionType};

fn addr(ip: u32, port: u16) -> NetAddr {
    NetAddr { ip, port }
}

#[test]
fn first_poll_completes_without_work() {
    // forever = false, no listeners, no dials: the first poll reports
    // completion without touching any channel.
    let mut svc = Service::new(Vec::new(), false, false);
    let (r, acts) = svc.poll(&Vec::new(), &Vec::new());
    assert_eq!(r, ServicePoll::Complete);
    assert!(acts.is_empty());
}

#[test]
fn forever_mode_never_completes() {
    // forever = true keeps the outbound counter at 1, so the loop never
    // reports completion on an otherwise idle service.
    let mut svc = Service::new(Vec::new(), false, true);
    assert_eq!(svc.task_count, 1);
    for _ in 0..3 {
        let (r, acts) = svc.poll(&Vec::new(), &Vec::new());
        assert_eq!(r, ServicePoll::NotReady);
        assert!(acts.is_empty());
        assert_eq!(svc.task_count, 1);
    }
}

#[test]
fn bypass_outbound_open_and_disconnect() {
    // No key pair: a resolved outbound connect opens the session
    // synchronously, settling the outbound counter; a disconnect task then
    // closes it and the loop completes.
    let mut svc = Service::new(Vec::new(), false, false);
    let a = addr(1, 7000);
    assert!(svc.dial(a));
    assert_eq!(svc.task_count, 1);

    let (r, acts) = svc.poll(&vec![DialPoll::Ready { handle: 7 }], &Vec::new());
    assert_eq!(r, ServicePoll::NotReady);
    assert_eq!(svc.task_count, 0);
    assert_eq!(svc.next_session, 1);
    assert_eq!(acts.len(), 2);
    match &acts[0] {
        Action::SpawnSession { id, handle, address, ty, public_key } => {
            assert_eq!(*id, 1);
            assert_eq!(*handle, 7);
            assert_eq!(*address, a);
            assert_eq!(*ty, SessionType::Outbound);
            assert!(public_key.is_none());
        },
        other => panic!("expected SpawnSession, got {:?}", other),
    }
    match &acts[1] {
        Action::ServiceNotify { event: ServiceEvent::SessionOpen { id, address, ty, public_key } } => {
            assert_eq!(*id, 1);
            assert_eq!(*address, a);
            // The actual direction is reported, not a hardcoded one.
            assert_eq!(*ty, SessionType::Outbound);
            assert!(public_key.is_none());
        },
        other => panic!("expected SessionOpen notification, got {:?}", other),
    }

    svc.service_context.disconnect(1);
    let (r2, acts2) = svc.poll(&Vec::new(), &Vec::new());
    assert_eq!(r2, ServicePoll::Complete);
    assert_eq!(acts2.len(), 2);
    assert!(matches!(acts2[0], Action::SendSessionClose { id: 1 }));
    assert!(matches!(
        acts2[1],
        Action::ServiceNotify { event: ServiceEvent::SessionClose { id: 1 } }
    ));
}

#[test]
fn outbound_handshake_timeout() {
    // Key pair configured: the resolved connect only spawns the handshake;
    // its failure settles the outbound counter and no session opens.
    let mut svc = Service::new(Vec::new(), true, false);
    let a = addr(2, 7001);
    assert!(svc.dial(a));

    let (r, acts) = svc.poll(&vec![DialPoll::Ready { handle: 3 }], &Vec::new());
    assert_eq!(r, ServicePoll::NotReady);
    assert_eq!(svc.task_count, 1);
    assert_eq!(acts.len(), 1);
    match &acts[0] {
        Action::StartHandshake { handle, address, ty } => {
            assert_eq!(*handle, 3);
            assert_eq!(*address, a);
            assert_eq!(*ty, SessionType::Outbound);
        },
        other => panic!("expected StartHandshake, got {:?}", other),
    }

    assert!(svc.push_session_event(SessionEvent::HandshakeFail {
        ty: SessionType::Outbound,
        error: IoError { kind: 10 },
    }));
    let (r2, acts2) = svc.poll(&Vec::new(), &Vec::new());
    assert_eq!(r2, ServicePoll::Complete);
    assert!(acts2.is_empty());
    assert_eq!(svc.task_count, 0);
    assert_eq!(svc.next_session, 0);
}

#[test]
fn public_key_dedup() {
    // Two inbound connections with the same public key: the first opens
    // session 1, the second stream is shut down with no session id spent.
    // After session 1 closes, the key may connect again as session 2.
    let mut svc = Service::new(Vec::new(), true, true);
    let a = addr(3, 7002);
    let key = || PublicKey { bytes: vec![9, 9, 9] };

    assert!(svc.push_session_event(SessionEvent::HandshakeSuccess {
        handle: 1,
        public_key: key(),
        address: a,
        ty: SessionType::Inbound,
    }));
    assert!(svc.push_session_event(SessionEvent::HandshakeSuccess {
        handle: 2,
        public_key: key(),
        address: a,
        ty: SessionType::Inbound,
    }));
    let (_, acts) = svc.poll(&Vec::new(), &Vec::new());
    assert_eq!(svc.next_session, 1);
    let opens: Vec<&Action> = acts
        .iter()
        .filter(|x| matches!(x, Action::ServiceNotify { event: ServiceEvent::SessionOpen { .. } }))
        .collect();
    assert_eq!(opens.len(), 1);
    match opens[0] {
        Action::ServiceNotify { event: ServiceEvent::SessionOpen { id, public_key, .. } } => {
            assert_eq!(*id, 1);
            assert_eq!(public_key.as_ref().unwrap().bytes, vec![9, 9, 9]);
        },
        _ => unreachable!(),
    }
    assert!(acts.iter().any(|x| matches!(x, Action::ShutdownStream { handle: 2 })));

    // Closing session 1 frees the key.
    let _ = svc.session_close(1);
    assert!(svc.push_session_event(SessionEvent::HandshakeSuccess {
        handle: 5,
        public_key: key(),
        address: a,
        ty: SessionType::Inbound,
    }));
    let (_, acts2) = svc.poll(&Vec::new(), &Vec::new());
    assert!(acts2.iter().any(|x| matches!(
        x,
        Action::ServiceNotify { event: ServiceEvent::SessionOpen { id: 2, .. } }
    )));
    assert_eq!(svc.next_session, 2);
}

#[test]
fn dial_error_reported_and_counted_once() {
    let mut svc = Service::new(Vec::new(), false, false);
    let a = addr(4, 7003);
    assert!(svc.dial(a));
    let (r, acts) = svc.poll(
        &vec![DialPoll::Failed { error: IoError { kind: 111 } }],
        &Vec::new(),
    );
    // The failed dial was the only outstanding work.
    assert_eq!(r, ServicePoll::Complete);
    assert_eq!(svc.task_count, 0);
    assert_eq!(acts.len(), 1);
    assert!(matches!(
        acts[0],
        Action::ServiceError {
            event: ServiceEvent::DialerError { address: NetAddr { ip: 4, port: 7003 }, error: IoError { kind: 111 } }
        }
    ));
}

#[test]
fn listen_error_keeps_listener() {
    let mut svc = Service::new(Vec::new(), false, false);
    let a = addr(5, 7004);
    svc.listen(a);
    let (r, acts) = svc.poll(
        &Vec::new(),
        &vec![ListenPoll::Failed { error: IoError { kind: 98 } }],
    );
    assert_eq!(r, ServicePoll::NotReady);
    assert_eq!(svc.listens.len(), 1);
    assert_eq!(acts.len(), 1);
    assert!(matches!(
        acts[0],
        Action::ServiceError {
            event: ServiceEvent::ListenError { address: NetAddr { ip: 5, port: 7004 }, error: IoError { kind: 98 } }
        }
    ));
}

#[test]
fn exhausted_listener_is_dropped() {
    let mut svc = Service::new(Vec::new(), false, false);
    let a = addr(6, 7005);
    svc.listen(a);
    let (r, _) = svc.poll(&Vec::new(), &vec![ListenPoll::Closed]);
    assert_eq!(r, ServicePoll::Complete);
    assert!(svc.listens.is_empty());
}

#[test]
fn inbound_accept_with_key_pair_spawns_handshake() {
    let mut svc = Service::new(Vec::new(), true, false);
    let a = addr(7, 7006);
    svc.listen(a);
    let (r, acts) = svc.poll(&Vec::new(), &vec![ListenPoll::Accepted { handle: 42 }]);
    assert_eq!(r, ServicePoll::NotReady);
    assert_eq!(svc.listens.len(), 1);
    assert_eq!(acts.len(), 1);
    assert!(matches!(
        acts[0],
        Action::StartHandshake { handle: 42, ty: SessionType::Inbound, .. }
    ));
}

#[test]
fn listen_snapshot_refreshed_after_poll() {
    let mut svc = Service::new(Vec::new(), false, false);
    let a = addr(8, 7007);
    svc.listen(a);
    assert!(svc.service_context.listens().is_empty());
    let (_, _) = svc.poll(&Vec::new(), &vec![ListenPoll::Pending]);
    assert_eq!(svc.service_context.listens().as_slice(), &[a]);
}
