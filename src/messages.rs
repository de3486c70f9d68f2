use vstd::prelude::*;
use crate::clock::VectorClock;
use crate::ids::{BranchId, BranchStatus, TenantId};

verus! {

/// A UTC instant: whole seconds since the Unix epoch and the nanoseconds past them.
#[derive(Debug, Clone, Copy, PartialEq, Eq, Structural)]
pub struct Timestamp {
    pub secs: i64,
    pub nanos: u32,
}

/// `a` is strictly earlier than `b`.
pub open spec fn ts_before(a: Timestamp, b: Timestamp) -> bool {
    a.secs < b.secs || (a.secs == b.secs && a.nanos < b.nanos)
}

impl Timestamp {
    /// True when `self` is strictly earlier than `o`.
    pub fn is_before(&self, o: &Timestamp) -> (r: bool)
        ensures
            r == ts_before(*self, *o),
    {
        self.secs < o.secs || (self.secs == o.secs && self.nanos < o.nanos)
    }
}

/// Relies on `chrono::Utc::now`: the current time, as seconds and nanoseconds.
#[verifier::external_body]
pub(crate) fn now_timestamp() -> (r: Timestamp) {
    let t = chrono::Utc::now();
    Timestamp { secs: t.timestamp(), nanos: t.timestamp_subsec_nanos() }
}

/// The envelope of every frame exchanged between branches and the hub.
#[derive(Debug, Clone)]
pub struct Message {
    pub id: String,
    pub timestamp: Timestamp,
    pub from: BranchId,
    pub to: Option<BranchId>,
    pub payload: MessagePayload,
}

impl Message {
    /// A message with a fresh random id, stamped with the current time.
    pub fn new(from: BranchId, to: Option<BranchId>, payload: MessagePayload) -> (r: Message)
        ensures
            r.from == from,
            r.to == to,
            r.payload == payload,
            r.id@.len() == 36,
    {
        Message { id: crate::util::new_uuid_v4(), timestamp: now_timestamp(), from, to, payload }
    }
}

/// The closed set of payload kinds.
#[derive(Debug, Clone)]
pub enum MessagePayload {
    Connect(ConnectRequest),
    ConnectAck(ConnectAck),
    Disconnect(DisconnectReason),
    Heartbeat,
    HeartbeatAck,
    SyncRequest(SyncRequest),
    SyncBatch(SyncBatch),
    SyncAck(SyncAck),
    SyncComplete(SyncComplete),
    ConflictDetected(ConflictNotification),
    ConflictResolved(ConflictResolution),
    SchemaVersion(SchemaVersionInfo),
    SchemaUpdate(SchemaUpdate),
    RouteMessage(RouteMessage),
    MessageDelivered(MessageDelivered),
    MessageFailed(MessageFailed),
    BranchStatus(BranchStatusUpdate),
    SystemNotification(SystemNotification),
    Error(ErrorPayload),
}

/// First frame of a session: who connects, and with which key.
#[derive(Debug, Clone)]
pub struct ConnectRequest {
    pub tenant_id: TenantId,
    pub branch_id: BranchId,
    pub api_key: String,
    pub version: String,
    pub capabilities: Vec<String>,
    pub metadata: Vec<(String, String)>,
}

#[derive(Debug, Clone)]
pub struct ConnectAck {
    pub session_id: String,
    pub server_version: String,
    pub heartbeat_interval_secs: u64,
    pub assigned_config: Vec<(String, String)>,
}

#[derive(Debug, Clone)]
pub struct DisconnectReason {
    pub code: u16,
    pub reason: String,
}

#[derive(Debug, Clone)]
pub struct SyncRequest {
    pub transaction_id: String,
    pub last_sync_timestamp: Option<Timestamp>,
    pub vector_clock: VectorClock,
    pub tables: Vec<String>,
}

/// An ordered group of changes from one branch, tagged with one vector clock.
#[derive(Debug, Clone)]
pub struct SyncBatch {
    pub transaction_id: String,
    pub vector_clock: VectorClock,
    pub changes: Vec<DatabaseChange>,
    pub is_final: bool,
}

/// One row mutation; `primary_key` and `data` hold compact JSON text.
#[derive(Debug, Clone)]
pub struct DatabaseChange {
    pub table_name: String,
    pub operation: Operation,
    pub primary_key: String,
    pub data: String,
    pub timestamp: Timestamp,
    pub schema_version: u32,
}

#[derive(Debug, Clone, Copy, PartialEq, Eq, Structural)]
pub enum Operation {
    Insert,
    Update,
    Delete,
}

impl Operation {
    /// Reads the change log's operation column; unknown text reads as `Insert`.
    pub fn from_db(s: &str) -> (r: Operation)
        ensures
            s@ == "UPDATE"@ ==> r == Operation::Update,
            s@ == "DELETE"@ ==> r == Operation::Delete,
            s@ != "UPDATE"@ && s@ != "DELETE"@ ==> r == Operation::Insert,
    {
        proof {
            reveal_strlit("UPDATE");
            reveal_strlit("DELETE");
            assert("UPDATE"@[0] != "DELETE"@[0]);
        }
        if crate::ids::str_eq(s, "UPDATE") {
            Operation::Update
        } else if crate::ids::str_eq(s, "DELETE") {
            Operation::Delete
        } else {
            Operation::Insert
        }
    }
}

#[derive(Debug, Clone)]
pub struct SyncAck {
    pub transaction_id: String,
    pub applied_changes: usize,
    pub failed_changes: Vec<FailedChange>,
}

#[derive(Debug, Clone)]
pub struct FailedChange {
    pub index: usize,
    pub reason: String,
}

#[derive(Debug, Clone)]
pub struct SyncComplete {
    pub transaction_id: String,
    pub total_changes: usize,
    pub duration_ms: u64,
}

#[derive(Debug, Clone)]
pub struct ConflictNotification {
    pub conflict_id: String,
    pub table_name: String,
    pub primary_key: String,
    pub local_change: DatabaseChange,
    pub remote_change: DatabaseChange,
    pub strategy: ConflictStrategy,
}

#[derive(Debug, Clone, Copy, PartialEq, Eq, Structural)]
pub enum ConflictStrategy {
    LastWriteWins,
    FirstWriteWins,
    ManualResolution,
    MergeFields,
}

#[derive(Debug, Clone)]
pub struct ConflictResolution {
    pub conflict_id: String,
    pub resolution: ConflictResolutionType,
    pub winning_change: DatabaseChange,
}

#[derive(Debug, Clone, Copy, PartialEq, Eq, Structural)]
pub enum ConflictResolutionType {
    LocalWins,
    RemoteWins,
    Merged,
    Manual,
}

#[derive(Debug, Clone)]
pub struct SchemaVersionInfo {
    pub version: u32,
    pub checksum: String,
    pub tables: Vec<TableSchema>,
}

#[derive(Debug, Clone)]
pub struct TableSchema {
    pub name: String,
    pub version: u32,
    pub columns: Vec<ColumnSchema>,
}

#[derive(Debug, Clone)]
pub struct ColumnSchema {
    pub name: String,
    pub data_type: String,
    pub nullable: bool,
}

#[derive(Debug, Clone)]
pub struct SchemaUpdate {
    pub old_version: u32,
    pub new_version: u32,
    pub migration_sql: String,
}

#[derive(Debug, Clone)]
pub struct RouteMessage {
    pub target_branch: BranchId,
    pub payload: Vec<u8>,
}

#[derive(Debug, Clone)]
pub struct MessageDelivered {
    pub message_id: String,
    pub delivered_at: Timestamp,
}

#[derive(Debug, Clone)]
pub struct MessageFailed {
    pub message_id: String,
    pub reason: String,
}

#[derive(Debug, Clone)]
pub struct BranchStatusUpdate {
    pub status: BranchStatus,
    pub message: Option<String>,
    pub metadata: Vec<(String, String)>,
}

#[derive(Debug, Clone)]
pub struct SystemNotification {
    pub level: NotificationLevel,
    pub message: String,
    pub action_required: bool,
}

#[derive(Debug, Clone, Copy, PartialEq, Eq, Structural)]
pub enum NotificationLevel {
    Info,
    Warning,
    Error,
    Critical,
}

/// An error report; `details`, when present, holds compact JSON text.
#[derive(Debug, Clone)]
pub struct ErrorPayload {
    pub code: String,
    pub message: String,
    pub details: Option<String>,
}

} // verus!
