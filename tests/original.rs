use sync_fabric::auth::{hash_api_key, verify_api_key};
use sync_fabric::clock::VectorClock;
use sync_fabric::codec::BincodeCodec;
use sync_fabric::conflict::ConflictResolver;
use sync_fabric::ids::{BranchId, QualifiedBranchId, TenantId};
use sync_fabric::messages::{ConflictStrategy, Message, MessagePayload};
use sync_fabric::util::calculate_backoff_duration;

#[test]
fn test_qualified_branch_id() {
    let tenant_id = TenantId::new("tenant_123");
    let branch_id = BranchId::new("branch_456");
    let qid = QualifiedBranchId::new(tenant_id, branch_id);

    let serialized = qid.to_string();
    assert_eq!(serialized, "tenant_123:branch_456");

    let parsed = QualifiedBranchId::from_string(&serialized).unwrap();
    assert_eq!(parsed, qid);
}

#[test]
fn test_vector_clock_happens_before() {
    let mut clock1 = VectorClock::new();
    let mut clock2 = VectorClock::new();

    let branch_a = BranchId::new("branch_a");
    let branch_b = BranchId::new("branch_b");

    clock1.increment(&branch_a);
    clock2.clocks = clock1.clocks.clone();
    clock2.increment(&branch_b);

    assert!(clock1.happens_before(&clock2));
    assert!(!clock2.happens_before(&clock1));
}

#[test]
fn test_vector_clock_concurrent() {
    let mut clock1 = VectorClock::new();
    let mut clock2 = VectorClock::new();

    let branch_a = BranchId::new("branch_a");
    let branch_b = BranchId::new("branch_b");

    clock1.increment(&branch_a);
    clock2.increment(&branch_b);

    assert!(clock1.is_concurrent(&clock2));
    assert!(clock2.is_concurrent(&clock1));
}

#[test]
fn test_backoff_calculation() {
    assert_eq!(calculate_backoff_duration(0, 1000, 60000).as_millis(), 1000);
    assert_eq!(calculate_backoff_duration(1, 1000, 60000).as_millis(), 2000);
    assert_eq!(calculate_backoff_duration(2, 1000, 60000).as_millis(), 4000);
    assert_eq!(calculate_backoff_duration(10, 1000, 60000).as_millis(), 60000); // capped
}

#[test]
fn test_hash_and_verify() {
    let api_key = "test_key_12345";
    let hash = hash_api_key(api_key).unwrap();
    assert!(verify_api_key(api_key, &hash).unwrap());
    assert!(!verify_api_key("wrong_key", &hash).unwrap());
}

#[test]
fn test_bincode_codec() {
    let message = Message::new(BranchId::new("test"), None, MessagePayload::Heartbeat);

    let codec = BincodeCodec;
    let encoded = codec.encode(&message).unwrap();
    let decoded = codec.decode(&encoded).unwrap();

    assert_eq!(message.id, decoded.id);
}

#[test]
fn test_conflict_detection() {
    let _resolver = ConflictResolver::new(ConflictStrategy::LastWriteWins);
}
