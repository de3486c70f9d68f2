use sync_fabric::cdc::{apply_change_sql, fetch_pending_sql, install_statements, mark_synced_sql, BoundValue};
use sync_fabric::auth::{authenticate_branch, check_branch_owner, issue_claims, tenant_may_authenticate, verify_api_key};
use sync_fabric::clock::VectorClock;
use sync_fabric::codec::BincodeCodec;
use sync_fabric::conflict::{classify_incoming, ApplyDecision, ConflictResolver};
use sync_fabric::error::Error;
use sync_fabric::ids::{str_less, BranchId, BranchStatus, QualifiedBranchId, TenantId, TenantStatus};
use sync_fabric::messages::{
    ConflictResolutionType, ConflictStrategy, ConnectRequest, DatabaseChange, ErrorPayload,
    FailedChange, Message, MessagePayload, Operation, SyncAck, SyncBatch, SyncRequest, Timestamp,
};
use sync_fabric::util::{backoff_millis, calculate_hash, generate_transaction_id};

fn change(table: &str, pk: &str, secs: i64, data: &str) -> DatabaseChange {
    DatabaseChange {
        table_name: table.to_string(),
        operation: Operation::Update,
        primary_key: pk.to_string(),
        data: data.to_string(),
        timestamp: Timestamp { secs, nanos: 0 },
        schema_version: 1,
    }
}

fn clock(entries: &[(&str, u64)]) -> VectorClock {
    let mut c = VectorClock::new();
    for (b, v) in entries {
        c.set(&BranchId::new(b), *v);
    }
    c
}

#[test]
fn happens_before_is_asymmetric() {
    let a = clock(&[("b1", 1), ("b2", 2)]);
    let b = clock(&[("b1", 2), ("b2", 2)]);
    assert!(a.happens_before(&b));
    assert!(!b.happens_before(&a));
    assert!(!a.happens_before(&a));
}

#[test]
fn happens_before_counts_coordinates_missing_from_the_other_clock() {
    let a = clock(&[("a", 1), ("b", 1)]);
    let b = clock(&[("a", 2)]);
    assert!(!a.happens_before(&b));
    assert!(!b.happens_before(&a));
    assert!(a.is_concurrent(&b));
}

#[test]
fn merge_takes_pointwise_maximum() {
    let mut a = clock(&[("x", 3), ("y", 1)]);
    let b = clock(&[("y", 5), ("z", 2)]);
    a.merge(&b);
    assert_eq!(a.get(&BranchId::new("x")), 3);
    assert_eq!(a.get(&BranchId::new("y")), 5);
    assert_eq!(a.get(&BranchId::new("z")), 2);
    assert_eq!(a.get(&BranchId::new("w")), 0);
    a.increment(&BranchId::new("w"));
    assert_eq!(a.get(&BranchId::new("w")), 1);
    assert!(a.equals(&a.clone()));
}

fn sample_message() -> Message {
    let mut vc = VectorClock::new();
    vc.increment(&BranchId::new("b1"));
    vc.increment(&BranchId::new("b2"));
    vc.increment(&BranchId::new("b1"));
    let batch = SyncBatch {
        transaction_id: "tx-42".to_string(),
        vector_clock: vc,
        changes: vec![
            change("orders", "7", 100, "{\"id\":7,\"name\":\"é\"}"),
            change("users", "1", -5, "{}"),
        ],
        is_final: true,
    };
    let mut m = Message::new(BranchId::new("b1"), Some(BranchId::new("b2")), MessagePayload::SyncBatch(batch));
    m.timestamp = Timestamp { secs: 1_700_000_000, nanos: 123 };
    m
}

#[test]
fn binary_codec_round_trips_a_sync_batch() {
    let m = sample_message();
    let codec = BincodeCodec;
    let bytes = codec.encode(&m).unwrap();
    let d = codec.decode(&bytes).unwrap();
    assert_eq!(d.id, m.id);
    assert_eq!(d.timestamp, m.timestamp);
    assert_eq!(d.from.as_str(), "b1");
    assert_eq!(d.to.as_ref().unwrap().as_str(), "b2");
    match (&d.payload, &m.payload) {
        (MessagePayload::SyncBatch(x), MessagePayload::SyncBatch(y)) => {
            assert_eq!(x.transaction_id, y.transaction_id);
            assert_eq!(x.changes.len(), 2);
            assert_eq!(x.changes[0].data, y.changes[0].data);
            assert_eq!(x.changes[1].timestamp.secs, -5);
            assert_eq!(x.changes[1].operation, Operation::Update);
            assert!(x.vector_clock.equals(&y.vector_clock));
            assert!(x.is_final);
        }
        _ => panic!("payload kind changed"),
    }
    assert_eq!(codec.encode(&d).unwrap(), bytes);
}

#[test]
fn binary_codec_round_trips_connect_and_errors() {
    let codec = BincodeCodec;
    let req = ConnectRequest {
        tenant_id: TenantId::new("t1"),
        branch_id: BranchId::new("b1"),
        api_key: "key".to_string(),
        version: "1.0.0".to_string(),
        capabilities: vec!["sync_v1".to_string()],
        metadata: vec![("k".to_string(), "v".to_string())],
    };
    let m = Message::new(BranchId::new("b1"), None, MessagePayload::Connect(req));
    let d = codec.decode(&codec.encode(&m).unwrap()).unwrap();
    match d.payload {
        MessagePayload::Connect(c) => {
            assert_eq!(c.tenant_id.as_str(), "t1");
            assert_eq!(c.metadata[0].1, "v");
        }
        _ => panic!("expected Connect"),
    }
    assert!(d.to.is_none());
    let e = Message::new(
        BranchId::new("hub"),
        None,
        MessagePayload::Error(ErrorPayload { code: "X".to_string(), message: "m".to_string(), details: Some("{}".to_string()) }),
    );
    let d = codec.decode(&codec.encode(&e).unwrap()).unwrap();
    match d.payload {
        MessagePayload::Error(p) => assert_eq!(p.details.unwrap(), "{}"),
        _ => panic!("expected Error"),
    }
    let ack = Message::new(
        BranchId::new("b2"),
        None,
        MessagePayload::SyncAck(SyncAck {
            transaction_id: "t".to_string(),
            applied_changes: 3,
            failed_changes: vec![FailedChange { index: 1, reason: "r".to_string() }],
        }),
    );
    let d = codec.decode(&codec.encode(&ack).unwrap()).unwrap();
    match d.payload {
        MessagePayload::SyncAck(a) => {
            assert_eq!(a.applied_changes, 3);
            assert_eq!(a.failed_changes[0].index, 1);
        }
        _ => panic!("expected SyncAck"),
    }
    let req = Message::new(
        BranchId::new("b2"),
        None,
        MessagePayload::SyncRequest(SyncRequest {
            transaction_id: "t".to_string(),
            last_sync_timestamp: Some(Timestamp { secs: 5, nanos: 6 }),
            vector_clock: VectorClock::new(),
            tables: vec!["a".to_string(), "b".to_string()],
        }),
    );
    let d = codec.decode(&codec.encode(&req).unwrap()).unwrap();
    match d.payload {
        MessagePayload::SyncRequest(r) => {
            assert_eq!(r.last_sync_timestamp, Some(Timestamp { secs: 5, nanos: 6 }));
            assert_eq!(r.tables, vec!["a".to_string(), "b".to_string()]);
        }
        _ => panic!("expected SyncRequest"),
    }
}

#[test]
fn binary_codec_rejects_bad_input() {
    let codec = BincodeCodec;
    let m = Message::new(BranchId::new("b1"), None, MessagePayload::Heartbeat);
    let mut bytes = codec.encode(&m).unwrap();
    bytes.push(0);
    assert!(matches!(codec.decode(&bytes), Err(Error::InvalidMessage(_))));
    bytes.pop();
    let last = bytes.len() - 1;
    bytes[last] = 200;
    assert!(matches!(codec.decode(&bytes), Err(Error::InvalidMessage(_))));
    assert!(matches!(codec.decode(&[]), Err(Error::InvalidMessage(_))));
    let mut dup = VectorClock::new();
    dup.clocks = vec![(BranchId::new("a"), 1), (BranchId::new("a"), 2)];
    let batch = SyncBatch { transaction_id: "t".to_string(), vector_clock: dup, changes: vec![], is_final: false };
    let bad = Message::new(BranchId::new("b1"), None, MessagePayload::SyncBatch(batch));
    assert!(matches!(codec.decode(&codec.encode(&bad).unwrap()), Err(Error::InvalidMessage(_))));
}

#[test]
fn concurrent_edit_last_write_wins() {
    let a = change("users", "1", 100, "{\"name\":\"alice\"}");
    let b = change("users", "1", 200, "{\"name\":\"alicia\"}");
    let ca = clock(&[("b1", 1)]);
    let cb = clock(&[("b2", 1)]);
    let r = ConflictResolver::new(ConflictStrategy::LastWriteWins);
    assert!(r.detect_conflict(&a, &b, &ca, &cb));
    let (w, t) = r.resolve_conflict(&a, &b, &ca, &cb, &BranchId::new("b1"), &BranchId::new("b2")).unwrap();
    assert_eq!(t, ConflictResolutionType::RemoteWins);
    assert_eq!(w.data, "{\"name\":\"alicia\"}");
}

#[test]
fn other_strategies() {
    let a = change("users", "1", 100, "A");
    let b = change("users", "1", 200, "B");
    let c = VectorClock::new();
    let (w, t) = ConflictResolver::new(ConflictStrategy::FirstWriteWins).resolve_conflict(&a, &b, &c, &c, &BranchId::new("b1"), &BranchId::new("b2")).unwrap();
    assert_eq!((w.data.as_str(), t), ("A", ConflictResolutionType::LocalWins));
    let (w, t) = ConflictResolver::new(ConflictStrategy::MergeFields).resolve_conflict(&a, &b, &c, &c, &BranchId::new("b1"), &BranchId::new("b2")).unwrap();
    assert_eq!((w.data.as_str(), t), ("B", ConflictResolutionType::Merged));
    let (w, t) = ConflictResolver::new(ConflictStrategy::LastWriteWins).resolve_conflict(&b, &a, &c, &c, &BranchId::new("b1"), &BranchId::new("b2")).unwrap();
    assert_eq!((w.data.as_str(), t), ("B", ConflictResolutionType::LocalWins));
    let r = ConflictResolver::new(ConflictStrategy::ManualResolution).resolve_conflict(&a, &b, &c, &c, &BranchId::new("b1"), &BranchId::new("b2"));
    assert!(matches!(r, Err(Error::SyncConflict(_))));
}

#[test]
fn no_conflict_for_ordered_equal_or_different_rows() {
    let r = ConflictResolver::new(ConflictStrategy::LastWriteWins);
    let a = change("users", "1", 1, "A");
    let ca = clock(&[("b1", 1)]);
    let cb = clock(&[("b1", 2)]);
    assert!(!r.detect_conflict(&a, &a, &ca, &cb));
    assert!(!r.detect_conflict(&a, &a, &VectorClock::new(), &VectorClock::new()));
    let other_row = change("users", "2", 1, "A");
    assert!(!r.detect_conflict(&a, &other_row, &clock(&[("x", 1)]), &clock(&[("y", 1)])));
    let other_table = change("items", "1", 1, "A");
    assert!(!r.detect_conflict(&a, &other_table, &clock(&[("x", 1)]), &clock(&[("y", 1)])));
}

#[test]
fn incoming_changes_are_classified() {
    let old = clock(&[("b1", 1)]);
    let new = clock(&[("b1", 2)]);
    let side = clock(&[("b2", 1)]);
    assert_eq!(classify_incoming(&old, &new), ApplyDecision::Apply);
    assert_eq!(classify_incoming(&new, &old), ApplyDecision::Discard);
    assert_eq!(classify_incoming(&old, &old.clone()), ApplyDecision::Discard);
    assert_eq!(classify_incoming(&old, &side), ApplyDecision::Resolve);
}

#[test]
fn qualified_ids_need_exactly_one_separator() {
    assert!(QualifiedBranchId::from_string("abc").is_none());
    assert!(QualifiedBranchId::from_string("a:b:c").is_none());
    let q = QualifiedBranchId::from_string(":").unwrap();
    assert_eq!(q.tenant_id.as_str(), "");
    assert_eq!(q.branch_id.as_str(), "");
}

#[test]
fn catalog_text_is_read() {
    assert_eq!(TenantStatus::from_db("active"), TenantStatus::Active);
    assert_eq!(TenantStatus::from_db("trial"), TenantStatus::Trial);
    assert_eq!(TenantStatus::from_db("bogus"), TenantStatus::Inactive);
    assert_eq!(TenantStatus::Suspended.to_db(), "suspended");
    assert_eq!(TenantStatus::from_db(TenantStatus::Trial.to_db()), TenantStatus::Trial);
    assert_eq!(BranchStatus::from_db("online"), BranchStatus::Online);
    assert_eq!(BranchStatus::from_db("other"), BranchStatus::Offline);
    assert_eq!(Operation::from_db("DELETE"), Operation::Delete);
    assert_eq!(Operation::from_db("weird"), Operation::Insert);
    let c = DatabaseChange::from_log_row("t".to_string(), "UPDATE", "1".to_string(), "{}".to_string(), Timestamp { secs: 1, nanos: 2 });
    assert_eq!(c.operation, Operation::Update);
    assert_eq!(c.schema_version, 1);
}

#[test]
fn authentication_rules() {
    assert!(tenant_may_authenticate(TenantStatus::Active));
    assert!(!tenant_may_authenticate(TenantStatus::Suspended));
    assert!(check_branch_owner(&TenantId::new("t1"), &TenantId::new("t1")).is_ok());
    assert!(matches!(check_branch_owner(&TenantId::new("t1"), &TenantId::new("t2")), Err(Error::AuthorizationFailed(_))));
    assert!(matches!(verify_api_key("k", "not a phc string"), Err(Error::AuthenticationFailed(_))));
    let c = issue_claims(&TenantId::new("t1"), &BranchId::new("b1"), 1000, 900).unwrap();
    assert_eq!((c.iat, c.exp), (1000, 1900));
    assert!(issue_claims(&TenantId::new("t1"), &BranchId::new("b1"), i64::MAX, 1).is_none());
}

#[test]
fn backoff_formula_and_saturation() {
    assert_eq!(backoff_millis(3, 1000, 60000), 8000);
    assert_eq!(backoff_millis(5, 1000, 60000), 32000);
    assert_eq!(backoff_millis(6, 1000, 60000), 60000);
    assert_eq!(backoff_millis(200, 1000, 60000), 60000);
    assert_eq!(backoff_millis(63, 1, u64::MAX), 1u64 << 63);
    assert_eq!(backoff_millis(64, 1, u64::MAX), u64::MAX);
    assert_eq!(backoff_millis(0, 5000, 1000), 1000);
}

#[test]
fn digests_and_ids() {
    assert_eq!(calculate_hash(b"abc"), "ba7816bf8f01cfea414140de5dae2223b00361a396177a9cb410ff61f20015ad");
    assert_eq!(generate_transaction_id().len(), 36);
    assert_eq!(BranchId::generate().as_str().len(), 36);
    let t = TenantId::generate();
    assert!(t.as_str().starts_with("tenant_"));
    assert_eq!(t.as_str().len(), 43);
    assert_eq!(Error::RateLimitExceeded.code(), "RateLimitExceeded");
}

#[test]
fn change_capture_statements() {
    let tables = vec!["items".to_string(), "orders".to_string()];
    let s = install_statements("shop", &tables);
    assert_eq!(s.len(), 6);
    assert!(s[0].starts_with("CREATE TABLE IF NOT EXISTS shop.sync_change_log ("));
    assert!(s[1].starts_with("CREATE OR REPLACE FUNCTION shop.log_changes() RETURNS TRIGGER"));
    assert_eq!(s[2], "DROP TRIGGER IF EXISTS sync_trigger ON shop.items");
    assert_eq!(
        s[3],
        "CREATE TRIGGER sync_trigger AFTER INSERT OR UPDATE OR DELETE ON shop.items FOR EACH ROW EXECUTE FUNCTION shop.log_changes()"
    );
    assert_eq!(s[4], "DROP TRIGGER IF EXISTS sync_trigger ON shop.orders");
    assert!(fetch_pending_sql("shop").contains("FROM shop.sync_change_log WHERE synced = FALSE ORDER BY id LIMIT $1"));
    assert_eq!(mark_synced_sql("shop"), "UPDATE shop.sync_change_log SET synced = TRUE WHERE id = ANY($1)");
}

#[test]
fn equal_timestamps_break_ties_by_origin() {
    let a = change("users", "1", 100, "A");
    let b = change("users", "1", 100, "B");
    let c = VectorClock::new();
    let (hi, lo) = (BranchId::new("branch_b"), BranchId::new("branch_a"));
    let lww = ConflictResolver::new(ConflictStrategy::LastWriteWins);
    let (w, t) = lww.resolve_conflict(&a, &b, &c, &c, &hi, &lo).unwrap();
    assert_eq!((w.data.as_str(), t), ("A", ConflictResolutionType::LocalWins));
    let (w, t) = lww.resolve_conflict(&a, &b, &c, &c, &lo, &hi).unwrap();
    assert_eq!((w.data.as_str(), t), ("B", ConflictResolutionType::RemoteWins));
    let fww = ConflictResolver::new(ConflictStrategy::FirstWriteWins);
    let (w, t) = fww.resolve_conflict(&a, &b, &c, &c, &lo, &hi).unwrap();
    assert_eq!((w.data.as_str(), t), ("A", ConflictResolutionType::LocalWins));
    let (w, t) = fww.resolve_conflict(&a, &b, &c, &c, &hi, &lo).unwrap();
    assert_eq!((w.data.as_str(), t), ("B", ConflictResolutionType::RemoteWins));
    let merge = ConflictResolver::new(ConflictStrategy::MergeFields);
    let (w, t) = merge.resolve_conflict(&a, &b, &c, &c, &hi, &lo).unwrap();
    assert_eq!((w.data.as_str(), t), ("A", ConflictResolutionType::Merged));
}

#[test]
fn lexicographic_order_of_ids() {
    assert!(str_less("a", "b"));
    assert!(str_less("ab", "abc"));
    assert!(!str_less("abc", "ab"));
    assert!(!str_less("same", "same"));
    assert!(str_less("", "x"));
    assert!(str_less("B", "a"));
}

#[test]
fn apply_statements_per_operation() {
    let mut c = change("items", "7", 1, "{}");
    c.operation = Operation::Insert;
    let s = apply_change_sql("shop", &c);
    assert_eq!(s.len(), 1);
    assert_eq!(
        s[0].0,
        "INSERT INTO shop.items SELECT * FROM jsonb_populate_record(NULL::shop.items, $1) ON CONFLICT DO NOTHING"
    );
    assert_eq!(s[0].1, BoundValue::RowData);
    c.operation = Operation::Update;
    let s = apply_change_sql("shop", &c);
    assert_eq!(s.len(), 2);
    assert_eq!(s[0].0, "DELETE FROM shop.items WHERE to_jsonb(id) = $1");
    assert_eq!((s[0].1, s[1].1), (BoundValue::PrimaryKey, BoundValue::RowData));
    c.operation = Operation::Delete;
    let s = apply_change_sql("shop", &c);
    assert_eq!(s.len(), 1);
    assert_eq!(s[0].1, BoundValue::PrimaryKey);
}

#[test]
fn authentication_rule() {
    let key = "test_key_12345";
    let hash = sync_fabric::auth::hash_api_key(key).unwrap();
    let (t1, t2) = (TenantId::new("t1"), TenantId::new("t2"));
    assert!(authenticate_branch(&t1, TenantStatus::Active, &t1, key, &hash).unwrap());
    assert!(!authenticate_branch(&t1, TenantStatus::Active, &t1, "wrong", &hash).unwrap());
    assert!(!authenticate_branch(&t1, TenantStatus::Suspended, &t1, key, &hash).unwrap());
    assert!(matches!(
        authenticate_branch(&t1, TenantStatus::Active, &t2, key, &hash),
        Err(Error::AuthorizationFailed(_))
    ));
    assert!(matches!(
        authenticate_branch(&t1, TenantStatus::Active, &t1, key, "garbage"),
        Err(Error::AuthenticationFailed(_))
    ));
}
