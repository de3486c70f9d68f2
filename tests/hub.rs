use sync_fabric::error::Error;
use sync_fabric::ids::{BranchId, BranchStatus, TenantId};
use sync_fabric::messages::{
    DatabaseChange, FailedChange, Message, MessagePayload, Operation, RouteMessage, SyncBatch,
    Timestamp,
};
use sync_fabric::registry::ConnectionManager;
use sync_fabric::replication::build_sync_ack;
use sync_fabric::router::{route_broadcast, route_direct, BranchInfo, Delivery, OfflineQueue};
use sync_fabric::session::{
    check_admission, error_reply, CloseReason, Session, SessionAction, SessionState,
};
use sync_fabric::clock::VectorClock;

fn connect_frame(tenant: &str, branch: &str, key: &str) -> Message {
    let client = sync_fabric::client::WebSocketClient::new(
        "ws://localhost:8080/ws".to_string(),
        tenant.to_string(),
        branch.to_string(),
        key.to_string(),
    );
    client.connect_message("1.0.0".to_string())
}

fn member(id: &str, tenant: &str, status: BranchStatus) -> BranchInfo {
    BranchInfo {
        id: BranchId::new(id),
        tenant_id: TenantId::new(tenant),
        name: id.to_string(),
        status,
        last_seen: 0,
    }
}

#[test]
fn happy_handshake_registers_branch() {
    let mut registry = ConnectionManager::new(10);
    let mut session = Session::new();
    let frame = connect_frame("t1", "b1", "K");
    let creds = session.on_first_frame(&frame).unwrap();
    assert_eq!(creds.tenant_id.as_str(), "t1");
    assert_eq!(creds.branch_id.as_str(), "b1");
    assert_eq!(creds.api_key, "K");
    let ack = session
        .on_auth_result(&mut registry, true, &creds.branch_id, 0, 30, "sid-1".to_string(), "0.1.0".to_string())
        .unwrap();
    match ack.payload {
        MessagePayload::ConnectAck(a) => {
            assert_eq!(a.heartbeat_interval_secs, 30);
            assert_eq!(a.session_id, "sid-1");
            assert!(!a.server_version.is_empty());
        }
        _ => panic!("expected ConnectAck"),
    }
    assert_eq!(ack.to.unwrap().as_str(), "b1");
    assert!(registry.is_connected(&BranchId::new("b1")));
    assert!(matches!(session.state, SessionState::Authenticated(_)));
}

#[test]
fn first_frame_must_be_connect() {
    let mut session = Session::new();
    let frame = Message::new(BranchId::new("b1"), None, MessagePayload::Heartbeat);
    let r = session.on_first_frame(&frame);
    assert!(matches!(r, Err(CloseReason::InvalidHandshake)));
    assert_eq!(CloseReason::InvalidHandshake.reason(), "invalid_handshake");
    assert!(matches!(session.state, SessionState::Closing));
}

#[test]
fn failed_authentication_closes() {
    let mut registry = ConnectionManager::new(10);
    let mut session = Session::new();
    let r = session.on_auth_result(&mut registry, false, &BranchId::new("b1"), 0, 30, "s".to_string(), "v".to_string());
    assert!(matches!(r, Err(CloseReason::AuthFailed)));
    assert_eq!(CloseReason::AuthFailed.reason(), "auth_failed");
    assert!(!registry.is_connected(&BranchId::new("b1")));
}

#[test]
fn admission_never_exceeds_limit() {
    let mut registry = ConnectionManager::new(2);
    assert!(registry.add_connection(&BranchId::new("a"), 0).is_ok());
    assert!(registry.add_connection(&BranchId::new("b"), 0).is_ok());
    assert!(check_admission(&registry).is_err());
    match registry.add_connection(&BranchId::new("c"), 0) {
        Err(Error::ConnectionError(m)) => assert_eq!(m, "Max connections reached"),
        _ => panic!("expected ConnectionError"),
    }
    assert_eq!(registry.len(), 2);
    assert!(!registry.is_connected(&BranchId::new("c")));
    registry.remove_connection(&BranchId::new("a"));
    assert!(check_admission(&registry).is_ok());
    assert_eq!(registry.len(), 1);
}

#[test]
fn admission_full_registry_refuses_handshake() {
    let mut registry = ConnectionManager::new(0);
    let mut session = Session::new();
    let r = session.on_auth_result(&mut registry, true, &BranchId::new("b1"), 0, 30, "s".to_string(), "v".to_string());
    assert!(matches!(r, Err(CloseReason::AdmissionRefused)));
    assert_eq!(registry.len(), 0);
}

#[test]
fn cross_tenant_direct_route_is_refused() {
    let mut registry = ConnectionManager::new(10);
    registry.add_connection(&BranchId::new("b1"), 0).unwrap();
    registry.add_connection(&BranchId::new("b2"), 0).unwrap();
    let r = route_direct(&registry, &TenantId::new("t1"), &BranchId::new("b2"), &TenantId::new("t2"));
    let e = r.unwrap_err();
    assert!(matches!(e, Error::AuthorizationFailed(_)));
    let reply = error_reply(&BranchId::new("b1"), &e);
    match reply.payload {
        MessagePayload::Error(p) => assert_eq!(p.code, "AuthorizationFailed"),
        _ => panic!("expected Error payload"),
    }
    assert_eq!(reply.to.unwrap().as_str(), "b1");
}

#[test]
fn same_tenant_route_sends_or_queues() {
    let mut registry = ConnectionManager::new(10);
    registry.add_connection(&BranchId::new("b2"), 0).unwrap();
    match route_direct(&registry, &TenantId::new("t1"), &BranchId::new("b2"), &TenantId::new("t1")) {
        Ok(Delivery::Send(b)) => assert_eq!(b.as_str(), "b2"),
        _ => panic!("expected Send"),
    }
    match route_direct(&registry, &TenantId::new("t1"), &BranchId::new("b3"), &TenantId::new("t1")) {
        Ok(Delivery::Queue(b)) => assert_eq!(b.as_str(), "b3"),
        _ => panic!("expected Queue"),
    }
}

#[test]
fn broadcast_reaches_only_online_peers_of_the_tenant() {
    let mut registry = ConnectionManager::new(10);
    for b in ["b1", "b2", "b3", "x1", "b5"] {
        registry.add_connection(&BranchId::new(b), 0).unwrap();
    }
    let members = vec![
        member("b1", "t1", BranchStatus::Online),
        member("b2", "t1", BranchStatus::Online),
        member("b3", "t1", BranchStatus::Offline),
        member("b4", "t1", BranchStatus::Online),
        member("x1", "t2", BranchStatus::Online),
        member("b5", "t1", BranchStatus::Online),
    ];
    let r = route_broadcast(&registry, &BranchId::new("b1"), &TenantId::new("t1"), &members);
    let names: Vec<&str> = r.iter().map(|b| b.as_str()).collect();
    assert_eq!(names, vec!["b2", "b5"]);
}

#[test]
fn offline_queue_is_fifo_and_expires() {
    let mut q = OfflineQueue::new();
    let m1 = Message::new(BranchId::new("b1"), Some(BranchId::new("b2")), MessagePayload::Heartbeat);
    let m2 = Message::new(BranchId::new("b1"), Some(BranchId::new("b3")), MessagePayload::Heartbeat);
    let m3 = Message::new(BranchId::new("b1"), Some(BranchId::new("b2")), MessagePayload::HeartbeatAck);
    let m4 = Message::new(BranchId::new("b1"), Some(BranchId::new("b2")), MessagePayload::Heartbeat);
    let (id1, id3) = (m1.id.clone(), m3.id.clone());
    q.push(BranchId::new("b2"), m1, 0, 100);
    q.push(BranchId::new("b3"), m2, 0, 100);
    q.push(BranchId::new("b2"), m3, 0, 100);
    q.push(BranchId::new("b2"), m4, 0, 5);
    let out = q.drain(&BranchId::new("b2"), 50);
    let ids: Vec<String> = out.iter().map(|m| m.id.clone()).collect();
    assert_eq!(ids, vec![id1, id3]);
    assert_eq!(q.entries.len(), 1);
    assert_eq!(q.entries[0].to.as_str(), "b3");
}

#[test]
fn offline_sync_batch_is_delivered_on_reconnect() {
    let mut q = OfflineQueue::new();
    let change = DatabaseChange {
        table_name: "orders".to_string(),
        operation: Operation::Insert,
        primary_key: "7".to_string(),
        data: "{\"id\":7}".to_string(),
        timestamp: Timestamp { secs: 10, nanos: 0 },
        schema_version: 1,
    };
    let batch = SyncBatch {
        transaction_id: "tx-42".to_string(),
        vector_clock: VectorClock::new(),
        changes: vec![change],
        is_final: true,
    };
    let msg = Message::new(BranchId::new("b1"), Some(BranchId::new("b2")), MessagePayload::SyncBatch(batch));
    q.push(BranchId::new("b2"), msg, 0, 3600);
    let out = q.drain(&BranchId::new("b2"), 1);
    assert_eq!(out.len(), 1);
    let n = match &out[0].payload {
        MessagePayload::SyncBatch(b) => {
            assert_eq!(b.transaction_id, "tx-42");
            b.changes.len()
        }
        _ => panic!("expected SyncBatch"),
    };
    let ack = build_sync_ack("tx-42".to_string(), n, Vec::new()).unwrap();
    assert_eq!(ack.transaction_id, "tx-42");
    assert_eq!(ack.applied_changes, 1);
    assert!(ack.failed_changes.is_empty());
}

#[test]
fn sync_ack_counts_failures() {
    let failed = vec![FailedChange { index: 2, reason: "constraint".to_string() }];
    let ack = build_sync_ack("tx".to_string(), 5, failed).unwrap();
    assert_eq!(ack.applied_changes, 4);
    assert_eq!(ack.failed_changes[0].index, 2);
    let too_many = vec![
        FailedChange { index: 0, reason: "a".to_string() },
        FailedChange { index: 1, reason: "b".to_string() },
    ];
    assert!(build_sync_ack("tx".to_string(), 1, too_many).is_none());
}

#[test]
fn stale_sessions_are_swept() {
    let mut registry = ConnectionManager::new(10);
    registry.add_connection(&BranchId::new("b"), 0).unwrap();
    registry.add_connection(&BranchId::new("fresh"), 0).unwrap();
    registry.update_heartbeat(&BranchId::new("fresh"), 50);
    let none = registry.sweep_stale(60, 60);
    assert!(none.is_empty());
    let closed = registry.sweep_stale(61, 60);
    assert_eq!(closed.len(), 1);
    assert_eq!(closed[0].as_str(), "b");
    assert!(!registry.is_connected(&BranchId::new("b")));
    assert!(registry.is_connected(&BranchId::new("fresh")));
    assert_eq!(CloseReason::Stale.code(), 1001);
}

#[test]
fn frames_from_another_branch_are_rejected() {
    let mut registry = ConnectionManager::new(10);
    let mut session = Session::new();
    session.on_auth_result(&mut registry, true, &BranchId::new("b1"), 0, 30, "s".to_string(), "v".to_string()).unwrap();
    let spoofed = Message::new(BranchId::new("b9"), None, MessagePayload::Heartbeat);
    assert!(matches!(session.on_frame(&spoofed), SessionAction::Reject(Error::AuthorizationFailed(_))));
    let hb = Message::new(BranchId::new("b1"), None, MessagePayload::Heartbeat);
    assert!(matches!(session.on_frame(&hb), SessionAction::Heartbeat));
    let route = Message::new(
        BranchId::new("b1"),
        Some(BranchId::new("b2")),
        MessagePayload::RouteMessage(RouteMessage { target_branch: BranchId::new("b2"), payload: vec![1, 2] }),
    );
    match session.on_frame(&route) {
        SessionAction::Forward(t) => assert_eq!(t.as_str(), "b2"),
        _ => panic!("expected Forward"),
    }
    let ack = session.on_heartbeat(&mut registry, 42).unwrap();
    assert!(matches!(ack.payload, MessagePayload::HeartbeatAck));
    assert_eq!(registry.metadata(&BranchId::new("b1")).unwrap().last_heartbeat, 42);
    session.close(&mut registry);
    assert!(!registry.is_connected(&BranchId::new("b1")));
}

#[test]
fn message_counts_are_recorded() {
    let mut registry = ConnectionManager::new(10);
    registry.add_connection(&BranchId::new("b1"), 7).unwrap();
    registry.record_sent(&BranchId::new("b1"));
    registry.record_sent(&BranchId::new("b1"));
    let m = registry.metadata(&BranchId::new("b1")).unwrap();
    assert_eq!(m.message_count, 2);
    assert_eq!(m.connected_at, 7);
    let all = registry.list_connections();
    assert_eq!(all.len(), 1);
    assert_eq!(all[0].0.as_str(), "b1");
}

#[test]
fn addressed_heartbeat_across_tenants_is_refused() {
    let mut registry = ConnectionManager::new(10);
    let mut session = Session::new();
    session.on_auth_result(&mut registry, true, &BranchId::new("b1"), 0, 30, "s".to_string(), "v".to_string()).unwrap();
    registry.add_connection(&BranchId::new("b2"), 0).unwrap();
    let frame = Message::new(BranchId::new("b1"), Some(BranchId::new("b2")), MessagePayload::Heartbeat);
    let target = match session.on_frame(&frame) {
        SessionAction::Forward(t) => t,
        _ => panic!("an addressed frame must go through the tenant check"),
    };
    assert_eq!(target.as_str(), "b2");
    let e = route_direct(&registry, &TenantId::new("t1"), &target, &TenantId::new("t2")).unwrap_err();
    let reply = error_reply(&frame.from, &e);
    match reply.payload {
        MessagePayload::Error(p) => assert_eq!(p.code, "AuthorizationFailed"),
        _ => panic!("expected Error payload"),
    }
    assert_eq!(registry.metadata(&BranchId::new("b2")).unwrap().message_count, 0);
}
