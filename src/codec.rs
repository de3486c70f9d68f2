use vstd::prelude::*;
use crate::clock::{keys_unique, VectorClock};
use crate::error::Error;
use crate::ids::{BranchId, BranchStatus, TenantId};
use crate::messages::{
    ColumnSchema, ConflictNotification, ConflictResolution, ConflictResolutionType, ConflictStrategy,
    ConnectAck, ConnectRequest, DatabaseChange, DisconnectReason, ErrorPayload, FailedChange,
    Message, MessageDelivered, MessageFailed, MessagePayload, NotificationLevel, Operation,
    RouteMessage, SchemaUpdate, SchemaVersionInfo, SyncAck, SyncBatch, SyncComplete, SyncRequest,
    SystemNotification, TableSchema, Timestamp, BranchStatusUpdate,
};
use crate::wire::{all_same, lemma_starts_with_concat, lemma_subrange_join, starts_with, Wire};

verus! {

impl Wire for TenantId {
    open spec fn wire(&self) -> Seq<u8> {
        self.0.wire()
    }

    open spec fn same(&self, o: &TenantId) -> bool {
        self@ == o@
    }

    open spec fn valid(&self) -> bool {
        self.0.valid()
    }

    proof fn lemma_unique(x: &TenantId, y: &TenantId, b: Seq<u8>, pos: int) {
        String::lemma_unique(&x.0, &y.0, b, pos);
    }

    fn put(&self, out: &mut Vec<u8>) {
        self.0.put(out);
    }

    fn get(buf: &[u8], pos: usize) -> (r: Option<(TenantId, usize)>) {
        match String::get(buf, pos) {
            None => None,
            Some((s, p)) => Some((TenantId(s), p)),
        }
    }
}

impl Wire for BranchId {
    open spec fn wire(&self) -> Seq<u8> {
        self.0.wire()
    }

    open spec fn same(&self, o: &BranchId) -> bool {
        self@ == o@
    }

    open spec fn valid(&self) -> bool {
        self.0.valid()
    }

    proof fn lemma_unique(x: &BranchId, y: &BranchId, b: Seq<u8>, pos: int) {
        String::lemma_unique(&x.0, &y.0, b, pos);
    }

    fn put(&self, out: &mut Vec<u8>) {
        self.0.put(out);
    }

    fn get(buf: &[u8], pos: usize) -> (r: Option<(BranchId, usize)>) {
        match String::get(buf, pos) {
            None => None,
            Some((s, p)) => Some((BranchId(s), p)),
        }
    }
}

/// True when no branch appears twice among the entries.
fn keys_distinct(v: &Vec<(BranchId, u64)>) -> (r: bool)
    ensures
        r == keys_unique(v@),
{
    let mut i: usize = 0;
    while i < v.len()
        invariant
            i <= v@.len(),
            forall|a: int, c: int| 0 <= a < c < v@.len() && a < i ==> v@[a].0@ != v@[c].0@,
        decreases v@.len() - i,
    {
        let mut j: usize = i + 1;
        while j < v.len()
            invariant
                i < v@.len(),
                i + 1 <= j <= v@.len(),
                forall|a: int, c: int| 0 <= a < c < v@.len() && a < i ==> v@[a].0@ != v@[c].0@,
                forall|c: int| i < c < j ==> v@[i as int].0@ != v@[c].0@,
            decreases v@.len() - j,
        {
            if v[i].0.eq_id(&v[j].0) {
                return false;
            }
            j = j + 1;
        }
        i = i + 1;
    }
    true
}

impl Wire for VectorClock {
    open spec fn wire(&self) -> Seq<u8> {
        self.clocks.wire()
    }

    open spec fn same(&self, o: &VectorClock) -> bool {
        self.clocks.same(&o.clocks)
    }

    open spec fn valid(&self) -> bool {
        self.clocks.valid() && self.wf()
    }

    proof fn lemma_unique(x: &VectorClock, y: &VectorClock, b: Seq<u8>, pos: int) {
        <Vec<(BranchId, u64)> as Wire>::lemma_unique(&x.clocks, &y.clocks, b, pos);
    }

    fn put(&self, out: &mut Vec<u8>) {
        self.clocks.put(out);
    }

    fn get(buf: &[u8], pos: usize) -> (r: Option<(VectorClock, usize)>) {
        match <Vec<(BranchId, u64)> as Wire>::get(buf, pos) {
            None => None,
            Some((clocks, p)) => {
                if keys_distinct(&clocks) {
                    Some((VectorClock { clocks }, p))
                } else {
                    proof {
                        assert forall|x: VectorClock| x.valid() && starts_with(buf@, pos as int, #[trigger] x.wire()) implies false by {
                            assert(all_same(clocks@, x.clocks@));
                            assert forall|a: int, c: int| 0 <= a < c < clocks@.len() implies clocks@[a].0@ != clocks@[c].0@ by {
                                assert(clocks@[a].same(&x.clocks@[a]));
                                assert(clocks@[c].same(&x.clocks@[c]));
                            }
                        }
                    }
                    None
                }
            },
        }
    }
}

/// The fields of a `Timestamp`, in wire order.
pub open spec fn timestamp_fields(v: &Timestamp) -> (i64, u32) {
    (v.secs, v.nanos)
}

/// The fields of a `ConnectRequest`, in wire order.
pub open spec fn connect_request_fields(v: &ConnectRequest) -> (TenantId, (BranchId, (String, (String, (Vec<String>, Vec<(String, String)>))))) {
    (v.tenant_id, (v.branch_id, (v.api_key, (v.version, (v.capabilities, v.metadata)))))
}

/// The fields of a `ConnectAck`, in wire order.
pub open spec fn connect_ack_fields(v: &ConnectAck) -> (String, (String, (u64, Vec<(String, String)>))) {
    (v.session_id, (v.server_version, (v.heartbeat_interval_secs, v.assigned_config)))
}

/// The fields of a `DisconnectReason`, in wire order.
pub open spec fn disconnect_reason_fields(v: &DisconnectReason) -> (u16, String) {
    (v.code, v.reason)
}

/// The fields of a `SyncRequest`, in wire order.
pub open spec fn sync_request_fields(v: &SyncRequest) -> (String, (Option<Timestamp>, (VectorClock, Vec<String>))) {
    (v.transaction_id, (v.last_sync_timestamp, (v.vector_clock, v.tables)))
}

/// The fields of a `SyncBatch`, in wire order.
pub open spec fn sync_batch_fields(v: &SyncBatch) -> (String, (VectorClock, (Vec<DatabaseChange>, bool))) {
    (v.transaction_id, (v.vector_clock, (v.changes, v.is_final)))
}

/// The fields of a `DatabaseChange`, in wire order.
pub open spec fn database_change_fields(v: &DatabaseChange) -> (String, (Operation, (String, (String, (Timestamp, u32))))) {
    (v.table_name, (v.operation, (v.primary_key, (v.data, (v.timestamp, v.schema_version)))))
}

/// The fields of a `SyncAck`, in wire order.
pub open spec fn sync_ack_fields(v: &SyncAck) -> (String, (usize, Vec<FailedChange>)) {
    (v.transaction_id, (v.applied_changes, v.failed_changes))
}

/// The fields of a `FailedChange`, in wire order.
pub open spec fn failed_change_fields(v: &FailedChange) -> (usize, String) {
    (v.index, v.reason)
}

/// The fields of a `SyncComplete`, in wire order.
pub open spec fn sync_complete_fields(v: &SyncComplete) -> (String, (usize, u64)) {
    (v.transaction_id, (v.total_changes, v.duration_ms))
}

/// The fields of a `ConflictNotification`, in wire order.
pub open spec fn conflict_notification_fields(v: &ConflictNotification) -> (String, (String, (String, (DatabaseChange, (DatabaseChange, ConflictStrategy))))) {
    (v.conflict_id, (v.table_name, (v.primary_key, (v.local_change, (v.remote_change, v.strategy)))))
}

/// The fields of a `ConflictResolution`, in wire order.
pub open spec fn conflict_resolution_fields(v: &ConflictResolution) -> (String, (ConflictResolutionType, DatabaseChange)) {
    (v.conflict_id, (v.resolution, v.winning_change))
}

/// The fields of a `SchemaVersionInfo`, in wire order.
pub open spec fn schema_version_info_fields(v: &SchemaVersionInfo) -> (u32, (String, Vec<TableSchema>)) {
    (v.version, (v.checksum, v.tables))
}

/// The fields of a `TableSchema`, in wire order.
pub open spec fn table_schema_fields(v: &TableSchema) -> (String, (u32, Vec<ColumnSchema>)) {
    (v.name, (v.version, v.columns))
}

/// The fields of a `ColumnSchema`, in wire order.
pub open spec fn column_schema_fields(v: &ColumnSchema) -> (String, (String, bool)) {
    (v.name, (v.data_type, v.nullable))
}

/// The fields of a `SchemaUpdate`, in wire order.
pub open spec fn schema_update_fields(v: &SchemaUpdate) -> (u32, (u32, String)) {
    (v.old_version, (v.new_version, v.migration_sql))
}

/// The fields of a `RouteMessage`, in wire order.
pub open spec fn route_message_fields(v: &RouteMessage) -> (BranchId, Vec<u8>) {
    (v.target_branch, v.payload)
}

/// The fields of a `MessageDelivered`, in wire order.
pub open spec fn message_delivered_fields(v: &MessageDelivered) -> (String, Timestamp) {
    (v.message_id, v.delivered_at)
}

/// The fields of a `MessageFailed`, in wire order.
pub open spec fn message_failed_fields(v: &MessageFailed) -> (String, String) {
    (v.message_id, v.reason)
}

/// The fields of a `BranchStatusUpdate`, in wire order.
pub open spec fn branch_status_update_fields(v: &BranchStatusUpdate) -> (BranchStatus, (Option<String>, Vec<(String, String)>)) {
    (v.status, (v.message, v.metadata))
}

/// The fields of a `SystemNotification`, in wire order.
pub open spec fn system_notification_fields(v: &SystemNotification) -> (NotificationLevel, (String, bool)) {
    (v.level, (v.message, v.action_required))
}

/// The fields of a `ErrorPayload`, in wire order.
pub open spec fn error_payload_fields(v: &ErrorPayload) -> (String, (String, Option<String>)) {
    (v.code, (v.message, v.details))
}

/// The fields of a `Message`, in wire order.
pub open spec fn message_fields(v: &Message) -> (String, (Timestamp, (BranchId, (Option<BranchId>, MessagePayload)))) {
    (v.id, (v.timestamp, (v.from, (v.to, v.payload))))
}

impl Wire for Timestamp {
    open spec fn wire(&self) -> Seq<u8> {
        (self.secs, self.nanos).wire()
    }

    open spec fn same(&self, o: &Timestamp) -> bool {
        (self.secs, self.nanos).same(&(o.secs, o.nanos))
    }

    open spec fn valid(&self) -> bool {
        (self.secs, self.nanos).valid()
    }

    proof fn lemma_unique(x: &Timestamp, y: &Timestamp, b: Seq<u8>, pos: int) {
        <(i64, u32) as Wire>::lemma_unique(&timestamp_fields(x), &timestamp_fields(y), b, pos);
    }

    fn put(&self, out: &mut Vec<u8>) {
        self.secs.put(out);
        self.nanos.put(out);
        proof {
            assert(final(out)@ =~= old(out)@ + self.wire());
        }
    }

    fn get(buf: &[u8], pos: usize) -> (r: Option<(Timestamp, usize)>) {
        match <(i64, u32) as Wire>::get(buf, pos) {
            None => None,
            Some(((f0, f1), p)) => Some((Timestamp { secs: f0, nanos: f1 }, p)),
        }
    }
}

impl Wire for ConnectRequest {
    open spec fn wire(&self) -> Seq<u8> {
        (self.tenant_id, (self.branch_id, (self.api_key, (self.version, (self.capabilities, self.metadata))))).wire()
    }

    open spec fn same(&self, o: &ConnectRequest) -> bool {
        (self.tenant_id, (self.branch_id, (self.api_key, (self.version, (self.capabilities, self.metadata))))).same(&(o.tenant_id, (o.branch_id, (o.api_key, (o.version, (o.capabilities, o.metadata))))))
    }

    open spec fn valid(&self) -> bool {
        (self.tenant_id, (self.branch_id, (self.api_key, (self.version, (self.capabilities, self.metadata))))).valid()
    }

    proof fn lemma_unique(x: &ConnectRequest, y: &ConnectRequest, b: Seq<u8>, pos: int) {
        <(TenantId, (BranchId, (String, (String, (Vec<String>, Vec<(String, String)>))))) as Wire>::lemma_unique(&connect_request_fields(x), &connect_request_fields(y), b, pos);
    }

    fn put(&self, out: &mut Vec<u8>) {
        self.tenant_id.put(out);
        self.branch_id.put(out);
        self.api_key.put(out);
        self.version.put(out);
        self.capabilities.put(out);
        self.metadata.put(out);
        proof {
            assert(final(out)@ =~= old(out)@ + self.wire());
        }
    }

    fn get(buf: &[u8], pos: usize) -> (r: Option<(ConnectRequest, usize)>) {
        match <(TenantId, (BranchId, (String, (String, (Vec<String>, Vec<(String, String)>))))) as Wire>::get(buf, pos) {
            None => None,
            Some(((f0, (f1, (f2, (f3, (f4, f5))))), p)) => Some((ConnectRequest { tenant_id: f0, branch_id: f1, api_key: f2, version: f3, capabilities: f4, metadata: f5 }, p)),
        }
    }
}

impl Wire for ConnectAck {
    open spec fn wire(&self) -> Seq<u8> {
        (self.session_id, (self.server_version, (self.heartbeat_interval_secs, self.assigned_config))).wire()
    }

    open spec fn same(&self, o: &ConnectAck) -> bool {
        (self.session_id, (self.server_version, (self.heartbeat_interval_secs, self.assigned_config))).same(&(o.session_id, (o.server_version, (o.heartbeat_interval_secs, o.assigned_config))))
    }

    open spec fn valid(&self) -> bool {
        (self.session_id, (self.server_version, (self.heartbeat_interval_secs, self.assigned_config))).valid()
    }

    proof fn lemma_unique(x: &ConnectAck, y: &ConnectAck, b: Seq<u8>, pos: int) {
        <(String, (String, (u64, Vec<(String, String)>))) as Wire>::lemma_unique(&connect_ack_fields(x), &connect_ack_fields(y), b, pos);
    }

    fn put(&self, out: &mut Vec<u8>) {
        self.session_id.put(out);
        self.server_version.put(out);
        self.heartbeat_interval_secs.put(out);
        self.assigned_config.put(out);
        proof {
            assert(final(out)@ =~= old(out)@ + self.wire());
        }
    }

    fn get(buf: &[u8], pos: usize) -> (r: Option<(ConnectAck, usize)>) {
        match <(String, (String, (u64, Vec<(String, String)>))) as Wire>::get(buf, pos) {
            None => None,
            Some(((f0, (f1, (f2, f3))), p)) => Some((ConnectAck { session_id: f0, server_version: f1, heartbeat_interval_secs: f2, assigned_config: f3 }, p)),
        }
    }
}

impl Wire for DisconnectReason {
    open spec fn wire(&self) -> Seq<u8> {
        (self.code, self.reason).wire()
    }

    open spec fn same(&self, o: &DisconnectReason) -> bool {
        (self.code, self.reason).same(&(o.code, o.reason))
    }

    open spec fn valid(&self) -> bool {
        (self.code, self.reason).valid()
    }

    proof fn lemma_unique(x: &DisconnectReason, y: &DisconnectReason, b: Seq<u8>, pos: int) {
        <(u16, String) as Wire>::lemma_unique(&disconnect_reason_fields(x), &disconnect_reason_fields(y), b, pos);
    }

    fn put(&self, out: &mut Vec<u8>) {
        self.code.put(out);
        self.reason.put(out);
        proof {
            assert(final(out)@ =~= old(out)@ + self.wire());
        }
    }

    fn get(buf: &[u8], pos: usize) -> (r: Option<(DisconnectReason, usize)>) {
        match <(u16, String) as Wire>::get(buf, pos) {
            None => None,
            Some(((f0, f1), p)) => Some((DisconnectReason { code: f0, reason: f1 }, p)),
        }
    }
}

impl Wire for SyncRequest {
    open spec fn wire(&self) -> Seq<u8> {
        (self.transaction_id, (self.last_sync_timestamp, (self.vector_clock, self.tables))).wire()
    }

    open spec fn same(&self, o: &SyncRequest) -> bool {
        (self.transaction_id, (self.last_sync_timestamp, (self.vector_clock, self.tables))).same(&(o.transaction_id, (o.last_sync_timestamp, (o.vector_clock, o.tables))))
    }

    open spec fn valid(&self) -> bool {
        (self.transaction_id, (self.last_sync_timestamp, (self.vector_clock, self.tables))).valid()
    }

    proof fn lemma_unique(x: &SyncRequest, y: &SyncRequest, b: Seq<u8>, pos: int) {
        <(String, (Option<Timestamp>, (VectorClock, Vec<String>))) as Wire>::lemma_unique(&sync_request_fields(x), &sync_request_fields(y), b, pos);
    }

    fn put(&self, out: &mut Vec<u8>) {
        self.transaction_id.put(out);
        self.last_sync_timestamp.put(out);
        self.vector_clock.put(out);
        self.tables.put(out);
        proof {
            assert(final(out)@ =~= old(out)@ + self.wire());
        }
    }

    fn get(buf: &[u8], pos: usize) -> (r: Option<(SyncRequest, usize)>) {
        match <(String, (Option<Timestamp>, (VectorClock, Vec<String>))) as Wire>::get(buf, pos) {
            None => None,
            Some(((f0, (f1, (f2, f3))), p)) => Some((SyncRequest { transaction_id: f0, last_sync_timestamp: f1, vector_clock: f2, tables: f3 }, p)),
        }
    }
}

impl Wire for SyncBatch {
    open spec fn wire(&self) -> Seq<u8> {
        (self.transaction_id, (self.vector_clock, (self.changes, self.is_final))).wire()
    }

    open spec fn same(&self, o: &SyncBatch) -> bool {
        (self.transaction_id, (self.vector_clock, (self.changes, self.is_final))).same(&(o.transaction_id, (o.vector_clock, (o.changes, o.is_final))))
    }

    open spec fn valid(&self) -> bool {
        (self.transaction_id, (self.vector_clock, (self.changes, self.is_final))).valid()
    }

    proof fn lemma_unique(x: &SyncBatch, y: &SyncBatch, b: Seq<u8>, pos: int) {
        <(String, (VectorClock, (Vec<DatabaseChange>, bool))) as Wire>::lemma_unique(&sync_batch_fields(x), &sync_batch_fields(y), b, pos);
    }

    fn put(&self, out: &mut Vec<u8>) {
        self.transaction_id.put(out);
        self.vector_clock.put(out);
        self.changes.put(out);
        self.is_final.put(out);
        proof {
            assert(final(out)@ =~= old(out)@ + self.wire());
        }
    }

    fn get(buf: &[u8], pos: usize) -> (r: Option<(SyncBatch, usize)>) {
        match <(String, (VectorClock, (Vec<DatabaseChange>, bool))) as Wire>::get(buf, pos) {
            None => None,
            Some(((f0, (f1, (f2, f3))), p)) => Some((SyncBatch { transaction_id: f0, vector_clock: f1, changes: f2, is_final: f3 }, p)),
        }
    }
}

impl Wire for DatabaseChange {
    open spec fn wire(&self) -> Seq<u8> {
        (self.table_name, (self.operation, (self.primary_key, (self.data, (self.timestamp, self.schema_version))))).wire()
    }

    open spec fn same(&self, o: &DatabaseChange) -> bool {
        (self.table_name, (self.operation, (self.primary_key, (self.data, (self.timestamp, self.schema_version))))).same(&(o.table_name, (o.operation, (o.primary_key, (o.data, (o.timestamp, o.schema_version))))))
    }

    open spec fn valid(&self) -> bool {
        (self.table_name, (self.operation, (self.primary_key, (self.data, (self.timestamp, self.schema_version))))).valid()
    }

    proof fn lemma_unique(x: &DatabaseChange, y: &DatabaseChange, b: Seq<u8>, pos: int) {
        <(String, (Operation, (String, (String, (Timestamp, u32))))) as Wire>::lemma_unique(&database_change_fields(x), &database_change_fields(y), b, pos);
    }

    fn put(&self, out: &mut Vec<u8>) {
        self.table_name.put(out);
        self.operation.put(out);
        self.primary_key.put(out);
        self.data.put(out);
        self.timestamp.put(out);
        self.schema_version.put(out);
        proof {
            assert(final(out)@ =~= old(out)@ + self.wire());
        }
    }

    fn get(buf: &[u8], pos: usize) -> (r: Option<(DatabaseChange, usize)>) {
        match <(String, (Operation, (String, (String, (Timestamp, u32))))) as Wire>::get(buf, pos) {
            None => None,
            Some(((f0, (f1, (f2, (f3, (f4, f5))))), p)) => Some((DatabaseChange { table_name: f0, operation: f1, primary_key: f2, data: f3, timestamp: f4, schema_version: f5 }, p)),
        }
    }
}

impl Wire for SyncAck {
    open spec fn wire(&self) -> Seq<u8> {
        (self.transaction_id, (self.applied_changes, self.failed_changes)).wire()
    }

    open spec fn same(&self, o: &SyncAck) -> bool {
        (self.transaction_id, (self.applied_changes, self.failed_changes)).same(&(o.transaction_id, (o.applied_changes, o.failed_changes)))
    }

    open spec fn valid(&self) -> bool {
        (self.transaction_id, (self.applied_changes, self.failed_changes)).valid()
    }

    proof fn lemma_unique(x: &SyncAck, y: &SyncAck, b: Seq<u8>, pos: int) {
        <(String, (usize, Vec<FailedChange>)) as Wire>::lemma_unique(&sync_ack_fields(x), &sync_ack_fields(y), b, pos);
    }

    fn put(&self, out: &mut Vec<u8>) {
        self.transaction_id.put(out);
        self.applied_changes.put(out);
        self.failed_changes.put(out);
        proof {
            assert(final(out)@ =~= old(out)@ + self.wire());
        }
    }

    fn get(buf: &[u8], pos: usize) -> (r: Option<(SyncAck, usize)>) {
        match <(String, (usize, Vec<FailedChange>)) as Wire>::get(buf, pos) {
            None => None,
            Some(((f0, (f1, f2)), p)) => Some((SyncAck { transaction_id: f0, applied_changes: f1, failed_changes: f2 }, p)),
        }
    }
}

impl Wire for FailedChange {
    open spec fn wire(&self) -> Seq<u8> {
        (self.index, self.reason).wire()
    }

    open spec fn same(&self, o: &FailedChange) -> bool {
        (self.index, self.reason).same(&(o.index, o.reason))
    }

    open spec fn valid(&self) -> bool {
        (self.index, self.reason).valid()
    }

    proof fn lemma_unique(x: &FailedChange, y: &FailedChange, b: Seq<u8>, pos: int) {
        <(usize, String) as Wire>::lemma_unique(&failed_change_fields(x), &failed_change_fields(y), b, pos);
    }

    fn put(&self, out: &mut Vec<u8>) {
        self.index.put(out);
        self.reason.put(out);
        proof {
            assert(final(out)@ =~= old(out)@ + self.wire());
        }
    }

    fn get(buf: &[u8], pos: usize) -> (r: Option<(FailedChange, usize)>) {
        match <(usize, String) as Wire>::get(buf, pos) {
            None => None,
            Some(((f0, f1), p)) => Some((FailedChange { index: f0, reason: f1 }, p)),
        }
    }
}

impl Wire for SyncComplete {
    open spec fn wire(&self) -> Seq<u8> {
        (self.transaction_id, (self.total_changes, self.duration_ms)).wire()
    }

    open spec fn same(&self, o: &SyncComplete) -> bool {
        (self.transaction_id, (self.total_changes, self.duration_ms)).same(&(o.transaction_id, (o.total_changes, o.duration_ms)))
    }

    open spec fn valid(&self) -> bool {
        (self.transaction_id, (self.total_changes, self.duration_ms)).valid()
    }

    proof fn lemma_unique(x: &SyncComplete, y: &SyncComplete, b: Seq<u8>, pos: int) {
        <(String, (usize, u64)) as Wire>::lemma_unique(&sync_complete_fields(x), &sync_complete_fields(y), b, pos);
    }

    fn put(&self, out: &mut Vec<u8>) {
        self.transaction_id.put(out);
        self.total_changes.put(out);
        self.duration_ms.put(out);
        proof {
            assert(final(out)@ =~= old(out)@ + self.wire());
        }
    }

    fn get(buf: &[u8], pos: usize) -> (r: Option<(SyncComplete, usize)>) {
        match <(String, (usize, u64)) as Wire>::get(buf, pos) {
            None => None,
            Some(((f0, (f1, f2)), p)) => Some((SyncComplete { transaction_id: f0, total_changes: f1, duration_ms: f2 }, p)),
        }
    }
}

impl Wire for ConflictNotification {
    open spec fn wire(&self) -> Seq<u8> {
        (self.conflict_id, (self.table_name, (self.primary_key, (self.local_change, (self.remote_change, self.strategy))))).wire()
    }

    open spec fn same(&self, o: &ConflictNotification) -> bool {
        (self.conflict_id, (self.table_name, (self.primary_key, (self.local_change, (self.remote_change, self.strategy))))).same(&(o.conflict_id, (o.table_name, (o.primary_key, (o.local_change, (o.remote_change, o.strategy))))))
    }

    open spec fn valid(&self) -> bool {
        (self.conflict_id, (self.table_name, (self.primary_key, (self.local_change, (self.remote_change, self.strategy))))).valid()
    }

    proof fn lemma_unique(x: &ConflictNotification, y: &ConflictNotification, b: Seq<u8>, pos: int) {
        <(String, (String, (String, (DatabaseChange, (DatabaseChange, ConflictStrategy))))) as Wire>::lemma_unique(&conflict_notification_fields(x), &conflict_notification_fields(y), b, pos);
    }

    fn put(&self, out: &mut Vec<u8>) {
        self.conflict_id.put(out);
        self.table_name.put(out);
        self.primary_key.put(out);
        self.local_change.put(out);
        self.remote_change.put(out);
        self.strategy.put(out);
        proof {
            assert(final(out)@ =~= old(out)@ + self.wire());
        }
    }

    fn get(buf: &[u8], pos: usize) -> (r: Option<(ConflictNotification, usize)>) {
        match <(String, (String, (String, (DatabaseChange, (DatabaseChange, ConflictStrategy))))) as Wire>::get(buf, pos) {
            None => None,
            Some(((f0, (f1, (f2, (f3, (f4, f5))))), p)) => Some((ConflictNotification { conflict_id: f0, table_name: f1, primary_key: f2, local_change: f3, remote_change: f4, strategy: f5 }, p)),
        }
    }
}

impl Wire for ConflictResolution {
    open spec fn wire(&self) -> Seq<u8> {
        (self.conflict_id, (self.resolution, self.winning_change)).wire()
    }

    open spec fn same(&self, o: &ConflictResolution) -> bool {
        (self.conflict_id, (self.resolution, self.winning_change)).same(&(o.conflict_id, (o.resolution, o.winning_change)))
    }

    open spec fn valid(&self) -> bool {
        (self.conflict_id, (self.resolution, self.winning_change)).valid()
    }

    proof fn lemma_unique(x: &ConflictResolution, y: &ConflictResolution, b: Seq<u8>, pos: int) {
        <(String, (ConflictResolutionType, DatabaseChange)) as Wire>::lemma_unique(&conflict_resolution_fields(x), &conflict_resolution_fields(y), b, pos);
    }

    fn put(&self, out: &mut Vec<u8>) {
        self.conflict_id.put(out);
        self.resolution.put(out);
        self.winning_change.put(out);
        proof {
            assert(final(out)@ =~= old(out)@ + self.wire());
        }
    }

    fn get(buf: &[u8], pos: usize) -> (r: Option<(ConflictResolution, usize)>) {
        match <(String, (ConflictResolutionType, DatabaseChange)) as Wire>::get(buf, pos) {
            None => None,
            Some(((f0, (f1, f2)), p)) => Some((ConflictResolution { conflict_id: f0, resolution: f1, winning_change: f2 }, p)),
        }
    }
}

impl Wire for SchemaVersionInfo {
    open spec fn wire(&self) -> Seq<u8> {
        (self.version, (self.checksum, self.tables)).wire()
    }

    open spec fn same(&self, o: &SchemaVersionInfo) -> bool {
        (self.version, (self.checksum, self.tables)).same(&(o.version, (o.checksum, o.tables)))
    }

    open spec fn valid(&self) -> bool {
        (self.version, (self.checksum, self.tables)).valid()
    }

    proof fn lemma_unique(x: &SchemaVersionInfo, y: &SchemaVersionInfo, b: Seq<u8>, pos: int) {
        <(u32, (String, Vec<TableSchema>)) as Wire>::lemma_unique(&schema_version_info_fields(x), &schema_version_info_fields(y), b, pos);
    }

    fn put(&self, out: &mut Vec<u8>) {
        self.version.put(out);
        self.checksum.put(out);
        self.tables.put(out);
        proof {
            assert(final(out)@ =~= old(out)@ + self.wire());
        }
    }

    fn get(buf: &[u8], pos: usize) -> (r: Option<(SchemaVersionInfo, usize)>) {
        match <(u32, (String, Vec<TableSchema>)) as Wire>::get(buf, pos) {
            None => None,
            Some(((f0, (f1, f2)), p)) => Some((SchemaVersionInfo { version: f0, checksum: f1, tables: f2 }, p)),
        }
    }
}

impl Wire for TableSchema {
    open spec fn wire(&self) -> Seq<u8> {
        (self.name, (self.version, self.columns)).wire()
    }

    open spec fn same(&self, o: &TableSchema) -> bool {
        (self.name, (self.version, self.columns)).same(&(o.name, (o.version, o.columns)))
    }

    open spec fn valid(&self) -> bool {
        (self.name, (self.version, self.columns)).valid()
    }

    proof fn lemma_unique(x: &TableSchema, y: &TableSchema, b: Seq<u8>, pos: int) {
        <(String, (u32, Vec<ColumnSchema>)) as Wire>::lemma_unique(&table_schema_fields(x), &table_schema_fields(y), b, pos);
    }

    fn put(&self, out: &mut Vec<u8>) {
        self.name.put(out);
        self.version.put(out);
        self.columns.put(out);
        proof {
            assert(final(out)@ =~= old(out)@ + self.wire());
        }
    }

    fn get(buf: &[u8], pos: usize) -> (r: Option<(TableSchema, usize)>) {
        match <(String, (u32, Vec<ColumnSchema>)) as Wire>::get(buf, pos) {
            None => None,
            Some(((f0, (f1, f2)), p)) => Some((TableSchema { name: f0, version: f1, columns: f2 }, p)),
        }
    }
}

impl Wire for ColumnSchema {
    open spec fn wire(&self) -> Seq<u8> {
        (self.name, (self.data_type, self.nullable)).wire()
    }

    open spec fn same(&self, o: &ColumnSchema) -> bool {
        (self.name, (self.data_type, self.nullable)).same(&(o.name, (o.data_type, o.nullable)))
    }

    open spec fn valid(&self) -> bool {
        (self.name, (self.data_type, self.nullable)).valid()
    }

    proof fn lemma_unique(x: &ColumnSchema, y: &ColumnSchema, b: Seq<u8>, pos: int) {
        <(String, (String, bool)) as Wire>::lemma_unique(&column_schema_fields(x), &column_schema_fields(y), b, pos);
    }

    fn put(&self, out: &mut Vec<u8>) {
        self.name.put(out);
        self.data_type.put(out);
        self.nullable.put(out);
        proof {
            assert(final(out)@ =~= old(out)@ + self.wire());
        }
    }

    fn get(buf: &[u8], pos: usize) -> (r: Option<(ColumnSchema, usize)>) {
        match <(String, (String, bool)) as Wire>::get(buf, pos) {
            None => None,
            Some(((f0, (f1, f2)), p)) => Some((ColumnSchema { name: f0, data_type: f1, nullable: f2 }, p)),
        }
    }
}

impl Wire for SchemaUpdate {
    open spec fn wire(&self) -> Seq<u8> {
        (self.old_version, (self.new_version, self.migration_sql)).wire()
    }

    open spec fn same(&self, o: &SchemaUpdate) -> bool {
        (self.old_version, (self.new_version, self.migration_sql)).same(&(o.old_version, (o.new_version, o.migration_sql)))
    }

    open spec fn valid(&self) -> bool {
        (self.old_version, (self.new_version, self.migration_sql)).valid()
    }

    proof fn lemma_unique(x: &SchemaUpdate, y: &SchemaUpdate, b: Seq<u8>, pos: int) {
        <(u32, (u32, String)) as Wire>::lemma_unique(&schema_update_fields(x), &schema_update_fields(y), b, pos);
    }

    fn put(&self, out: &mut Vec<u8>) {
        self.old_version.put(out);
        self.new_version.put(out);
        self.migration_sql.put(out);
        proof {
            assert(final(out)@ =~= old(out)@ + self.wire());
        }
    }

    fn get(buf: &[u8], pos: usize) -> (r: Option<(SchemaUpdate, usize)>) {
        match <(u32, (u32, String)) as Wire>::get(buf, pos) {
            None => None,
            Some(((f0, (f1, f2)), p)) => Some((SchemaUpdate { old_version: f0, new_version: f1, migration_sql: f2 }, p)),
        }
    }
}

impl Wire for RouteMessage {
    open spec fn wire(&self) -> Seq<u8> {
        (self.target_branch, self.payload).wire()
    }

    open spec fn same(&self, o: &RouteMessage) -> bool {
        (self.target_branch, self.payload).same(&(o.target_branch, o.payload))
    }

    open spec fn valid(&self) -> bool {
        (self.target_branch, self.payload).valid()
    }

    proof fn lemma_unique(x: &RouteMessage, y: &RouteMessage, b: Seq<u8>, pos: int) {
        <(BranchId, Vec<u8>) as Wire>::lemma_unique(&route_message_fields(x), &route_message_fields(y), b, pos);
    }

    fn put(&self, out: &mut Vec<u8>) {
        self.target_branch.put(out);
        self.payload.put(out);
        proof {
            assert(final(out)@ =~= old(out)@ + self.wire());
        }
    }

    fn get(buf: &[u8], pos: usize) -> (r: Option<(RouteMessage, usize)>) {
        match <(BranchId, Vec<u8>) as Wire>::get(buf, pos) {
            None => None,
            Some(((f0, f1), p)) => Some((RouteMessage { target_branch: f0, payload: f1 }, p)),
        }
    }
}

impl Wire for MessageDelivered {
    open spec fn wire(&self) -> Seq<u8> {
        (self.message_id, self.delivered_at).wire()
    }

    open spec fn same(&self, o: &MessageDelivered) -> bool {
        (self.message_id, self.delivered_at).same(&(o.message_id, o.delivered_at))
    }

    open spec fn valid(&self) -> bool {
        (self.message_id, self.delivered_at).valid()
    }

    proof fn lemma_unique(x: &MessageDelivered, y: &MessageDelivered, b: Seq<u8>, pos: int) {
        <(String, Timestamp) as Wire>::lemma_unique(&message_delivered_fields(x), &message_delivered_fields(y), b, pos);
    }

    fn put(&self, out: &mut Vec<u8>) {
        self.message_id.put(out);
        self.delivered_at.put(out);
        proof {
            assert(final(out)@ =~= old(out)@ + self.wire());
        }
    }

    fn get(buf: &[u8], pos: usize) -> (r: Option<(MessageDelivered, usize)>) {
        match <(String, Timestamp) as Wire>::get(buf, pos) {
            None => None,
            Some(((f0, f1), p)) => Some((MessageDelivered { message_id: f0, delivered_at: f1 }, p)),
        }
    }
}

impl Wire for MessageFailed {
    open spec fn wire(&self) -> Seq<u8> {
        (self.message_id, self.reason).wire()
    }

    open spec fn same(&self, o: &MessageFailed) -> bool {
        (self.message_id, self.reason).same(&(o.message_id, o.reason))
    }

    open spec fn valid(&self) -> bool {
        (self.message_id, self.reason).valid()
    }

    proof fn lemma_unique(x: &MessageFailed, y: &MessageFailed, b: Seq<u8>, pos: int) {
        <(String, String) as Wire>::lemma_unique(&message_failed_fields(x), &message_failed_fields(y), b, pos);
    }

    fn put(&self, out: &mut Vec<u8>) {
        self.message_id.put(out);
        self.reason.put(out);
        proof {
            assert(final(out)@ =~= old(out)@ + self.wire());
        }
    }

    fn get(buf: &[u8], pos: usize) -> (r: Option<(MessageFailed, usize)>) {
        match <(String, String) as Wire>::get(buf, pos) {
            None => None,
            Some(((f0, f1), p)) => Some((MessageFailed { message_id: f0, reason: f1 }, p)),
        }
    }
}

impl Wire for BranchStatusUpdate {
    open spec fn wire(&self) -> Seq<u8> {
        (self.status, (self.message, self.metadata)).wire()
    }

    open spec fn same(&self, o: &BranchStatusUpdate) -> bool {
        (self.status, (self.message, self.metadata)).same(&(o.status, (o.message, o.metadata)))
    }

    open spec fn valid(&self) -> bool {
        (self.status, (self.message, self.metadata)).valid()
    }

    proof fn lemma_unique(x: &BranchStatusUpdate, y: &BranchStatusUpdate, b: Seq<u8>, pos: int) {
        <(BranchStatus, (Option<String>, Vec<(String, String)>)) as Wire>::lemma_unique(&branch_status_update_fields(x), &branch_status_update_fields(y), b, pos);
    }

    fn put(&self, out: &mut Vec<u8>) {
        self.status.put(out);
        self.message.put(out);
        self.metadata.put(out);
        proof {
            assert(final(out)@ =~= old(out)@ + self.wire());
        }
    }

    fn get(buf: &[u8], pos: usize) -> (r: Option<(BranchStatusUpdate, usize)>) {
        match <(BranchStatus, (Option<String>, Vec<(String, String)>)) as Wire>::get(buf, pos) {
            None => None,
            Some(((f0, (f1, f2)), p)) => Some((BranchStatusUpdate { status: f0, message: f1, metadata: f2 }, p)),
        }
    }
}

impl Wire for SystemNotification {
    open spec fn wire(&self) -> Seq<u8> {
        (self.level, (self.message, self.action_required)).wire()
    }

    open spec fn same(&self, o: &SystemNotification) -> bool {
        (self.level, (self.message, self.action_required)).same(&(o.level, (o.message, o.action_required)))
    }

    open spec fn valid(&self) -> bool {
        (self.level, (self.message, self.action_required)).valid()
    }

    proof fn lemma_unique(x: &SystemNotification, y: &SystemNotification, b: Seq<u8>, pos: int) {
        <(NotificationLevel, (String, bool)) as Wire>::lemma_unique(&system_notification_fields(x), &system_notification_fields(y), b, pos);
    }

    fn put(&self, out: &mut Vec<u8>) {
        self.level.put(out);
        self.message.put(out);
        self.action_required.put(out);
        proof {
            assert(final(out)@ =~= old(out)@ + self.wire());
        }
    }

    fn get(buf: &[u8], pos: usize) -> (r: Option<(SystemNotification, usize)>) {
        match <(NotificationLevel, (String, bool)) as Wire>::get(buf, pos) {
            None => None,
            Some(((f0, (f1, f2)), p)) => Some((SystemNotification { level: f0, message: f1, action_required: f2 }, p)),
        }
    }
}

impl Wire for ErrorPayload {
    open spec fn wire(&self) -> Seq<u8> {
        (self.code, (self.message, self.details)).wire()
    }

    open spec fn same(&self, o: &ErrorPayload) -> bool {
        (self.code, (self.message, self.details)).same(&(o.code, (o.message, o.details)))
    }

    open spec fn valid(&self) -> bool {
        (self.code, (self.message, self.details)).valid()
    }

    proof fn lemma_unique(x: &ErrorPayload, y: &ErrorPayload, b: Seq<u8>, pos: int) {
        <(String, (String, Option<String>)) as Wire>::lemma_unique(&error_payload_fields(x), &error_payload_fields(y), b, pos);
    }

    fn put(&self, out: &mut Vec<u8>) {
        self.code.put(out);
        self.message.put(out);
        self.details.put(out);
        proof {
            assert(final(out)@ =~= old(out)@ + self.wire());
        }
    }

    fn get(buf: &[u8], pos: usize) -> (r: Option<(ErrorPayload, usize)>) {
        match <(String, (String, Option<String>)) as Wire>::get(buf, pos) {
            None => None,
            Some(((f0, (f1, f2)), p)) => Some((ErrorPayload { code: f0, message: f1, details: f2 }, p)),
        }
    }
}

impl Wire for Message {
    open spec fn wire(&self) -> Seq<u8> {
        (self.id, (self.timestamp, (self.from, (self.to, self.payload)))).wire()
    }

    open spec fn same(&self, o: &Message) -> bool {
        (self.id, (self.timestamp, (self.from, (self.to, self.payload)))).same(&(o.id, (o.timestamp, (o.from, (o.to, o.payload)))))
    }

    open spec fn valid(&self) -> bool {
        (self.id, (self.timestamp, (self.from, (self.to, self.payload)))).valid()
    }

    proof fn lemma_unique(x: &Message, y: &Message, b: Seq<u8>, pos: int) {
        <(String, (Timestamp, (BranchId, (Option<BranchId>, MessagePayload)))) as Wire>::lemma_unique(&message_fields(x), &message_fields(y), b, pos);
    }

    fn put(&self, out: &mut Vec<u8>) {
        self.id.put(out);
        self.timestamp.put(out);
        self.from.put(out);
        self.to.put(out);
        self.payload.put(out);
        proof {
            assert(final(out)@ =~= old(out)@ + self.wire());
        }
    }

    fn get(buf: &[u8], pos: usize) -> (r: Option<(Message, usize)>) {
        match <(String, (Timestamp, (BranchId, (Option<BranchId>, MessagePayload)))) as Wire>::get(buf, pos) {
            None => None,
            Some(((f0, (f1, (f2, (f3, f4)))), p)) => Some((Message { id: f0, timestamp: f1, from: f2, to: f3, payload: f4 }, p)),
        }
    }
}

/// One-byte tag of each Operation variant.
pub open spec fn operation_tag(v: Operation) -> u8 {
    match v {
            Operation::Insert => 0u8,
            Operation::Update => 1u8,
            Operation::Delete => 2u8,
    }
}

impl Wire for Operation {
    open spec fn wire(&self) -> Seq<u8> {
        operation_tag(*self).wire()
    }

    open spec fn same(&self, o: &Operation) -> bool {
        *self == *o
    }

    open spec fn valid(&self) -> bool {
        true
    }

    proof fn lemma_unique(x: &Operation, y: &Operation, b: Seq<u8>, pos: int) {
        u8::lemma_unique(&operation_tag(*x), &operation_tag(*y), b, pos);
    }

    fn put(&self, out: &mut Vec<u8>) {
        let t: u8 = match self {
            Operation::Insert => 0,
            Operation::Update => 1,
            Operation::Delete => 2,
        };
        t.put(out);
    }

    fn get(buf: &[u8], pos: usize) -> (r: Option<(Operation, usize)>) {
        match u8::get(buf, pos) {
            None => None,
            Some((t, p)) => match t {
                0 => Some((Operation::Insert, p)),
                1 => Some((Operation::Update, p)),
                2 => Some((Operation::Delete, p)),
                _ => None,
            },
        }
    }
}

/// One-byte tag of each ConflictStrategy variant.
pub open spec fn conflict_strategy_tag(v: ConflictStrategy) -> u8 {
    match v {
            ConflictStrategy::LastWriteWins => 0u8,
            ConflictStrategy::FirstWriteWins => 1u8,
            ConflictStrategy::ManualResolution => 2u8,
            ConflictStrategy::MergeFields => 3u8,
    }
}

impl Wire for ConflictStrategy {
    open spec fn wire(&self) -> Seq<u8> {
        conflict_strategy_tag(*self).wire()
    }

    open spec fn same(&self, o: &ConflictStrategy) -> bool {
        *self == *o
    }

    open spec fn valid(&self) -> bool {
        true
    }

    proof fn lemma_unique(x: &ConflictStrategy, y: &ConflictStrategy, b: Seq<u8>, pos: int) {
        u8::lemma_unique(&conflict_strategy_tag(*x), &conflict_strategy_tag(*y), b, pos);
    }

    fn put(&self, out: &mut Vec<u8>) {
        let t: u8 = match self {
            ConflictStrategy::LastWriteWins => 0,
            ConflictStrategy::FirstWriteWins => 1,
            ConflictStrategy::ManualResolution => 2,
            ConflictStrategy::MergeFields => 3,
        };
        t.put(out);
    }

    fn get(buf: &[u8], pos: usize) -> (r: Option<(ConflictStrategy, usize)>) {
        match u8::get(buf, pos) {
            None => None,
            Some((t, p)) => match t {
                0 => Some((ConflictStrategy::LastWriteWins, p)),
                1 => Some((ConflictStrategy::FirstWriteWins, p)),
                2 => Some((ConflictStrategy::ManualResolution, p)),
                3 => Some((ConflictStrategy::MergeFields, p)),
                _ => None,
            },
        }
    }
}

/// One-byte tag of each ConflictResolutionType variant.
pub open spec fn conflict_resolution_type_tag(v: ConflictResolutionType) -> u8 {
    match v {
            ConflictResolutionType::LocalWins => 0u8,
            ConflictResolutionType::RemoteWins => 1u8,
            ConflictResolutionType::Merged => 2u8,
            ConflictResolutionType::Manual => 3u8,
    }
}

impl Wire for ConflictResolutionType {
    open spec fn wire(&self) -> Seq<u8> {
        conflict_resolution_type_tag(*self).wire()
    }

    open spec fn same(&self, o: &ConflictResolutionType) -> bool {
        *self == *o
    }

    open spec fn valid(&self) -> bool {
        true
    }

    proof fn lemma_unique(x: &ConflictResolutionType, y: &ConflictResolutionType, b: Seq<u8>, pos: int) {
        u8::lemma_unique(&conflict_resolution_type_tag(*x), &conflict_resolution_type_tag(*y), b, pos);
    }

    fn put(&self, out: &mut Vec<u8>) {
        let t: u8 = match self {
            ConflictResolutionType::LocalWins => 0,
            ConflictResolutionType::RemoteWins => 1,
            ConflictResolutionType::Merged => 2,
            ConflictResolutionType::Manual => 3,
        };
        t.put(out);
    }

    fn get(buf: &[u8], pos: usize) -> (r: Option<(ConflictResolutionType, usize)>) {
        match u8::get(buf, pos) {
            None => None,
            Some((t, p)) => match t {
                0 => Some((ConflictResolutionType::LocalWins, p)),
                1 => Some((ConflictResolutionType::RemoteWins, p)),
                2 => Some((ConflictResolutionType::Merged, p)),
                3 => Some((ConflictResolutionType::Manual, p)),
                _ => None,
            },
        }
    }
}

/// One-byte tag of each NotificationLevel variant.
pub open spec fn notification_level_tag(v: NotificationLevel) -> u8 {
    match v {
            NotificationLevel::Info => 0u8,
            NotificationLevel::Warning => 1u8,
            NotificationLevel::Error => 2u8,
            NotificationLevel::Critical => 3u8,
    }
}

impl Wire for NotificationLevel {
    open spec fn wire(&self) -> Seq<u8> {
        notification_level_tag(*self).wire()
    }

    open spec fn same(&self, o: &NotificationLevel) -> bool {
        *self == *o
    }

    open spec fn valid(&self) -> bool {
        true
    }

    proof fn lemma_unique(x: &NotificationLevel, y: &NotificationLevel, b: Seq<u8>, pos: int) {
        u8::lemma_unique(&notification_level_tag(*x), &notification_level_tag(*y), b, pos);
    }

    fn put(&self, out: &mut Vec<u8>) {
        let t: u8 = match self {
            NotificationLevel::Info => 0,
            NotificationLevel::Warning => 1,
            NotificationLevel::Error => 2,
            NotificationLevel::Critical => 3,
        };
        t.put(out);
    }

    fn get(buf: &[u8], pos: usize) -> (r: Option<(NotificationLevel, usize)>) {
        match u8::get(buf, pos) {
            None => None,
            Some((t, p)) => match t {
                0 => Some((NotificationLevel::Info, p)),
                1 => Some((NotificationLevel::Warning, p)),
                2 => Some((NotificationLevel::Error, p)),
                3 => Some((NotificationLevel::Critical, p)),
                _ => None,
            },
        }
    }
}

/// One-byte tag of each BranchStatus variant.
pub open spec fn branch_status_tag(v: BranchStatus) -> u8 {
    match v {
            BranchStatus::Online => 0u8,
            BranchStatus::Offline => 1u8,
            BranchStatus::Syncing => 2u8,
            BranchStatus::Error => 3u8,
    }
}

impl Wire for BranchStatus {
    open spec fn wire(&self) -> Seq<u8> {
        branch_status_tag(*self).wire()
    }

    open spec fn same(&self, o: &BranchStatus) -> bool {
        *self == *o
    }

    open spec fn valid(&self) -> bool {
        true
    }

    proof fn lemma_unique(x: &BranchStatus, y: &BranchStatus, b: Seq<u8>, pos: int) {
        u8::lemma_unique(&branch_status_tag(*x), &branch_status_tag(*y), b, pos);
    }

    fn put(&self, out: &mut Vec<u8>) {
        let t: u8 = match self {
            BranchStatus::Online => 0,
            BranchStatus::Offline => 1,
            BranchStatus::Syncing => 2,
            BranchStatus::Error => 3,
        };
        t.put(out);
    }

    fn get(buf: &[u8], pos: usize) -> (r: Option<(BranchStatus, usize)>) {
        match u8::get(buf, pos) {
            None => None,
            Some((t, p)) => match t {
                0 => Some((BranchStatus::Online, p)),
                1 => Some((BranchStatus::Offline, p)),
                2 => Some((BranchStatus::Syncing, p)),
                3 => Some((BranchStatus::Error, p)),
                _ => None,
            },
        }
    }
}

/// One-byte tag of each payload kind.
pub open spec fn payload_tag(m: MessagePayload) -> u8 {
    match m {
        MessagePayload::Connect(_) => 0u8,
        MessagePayload::ConnectAck(_) => 1u8,
        MessagePayload::Disconnect(_) => 2u8,
        MessagePayload::Heartbeat => 3u8,
        MessagePayload::HeartbeatAck => 4u8,
        MessagePayload::SyncRequest(_) => 5u8,
        MessagePayload::SyncBatch(_) => 6u8,
        MessagePayload::SyncAck(_) => 7u8,
        MessagePayload::SyncComplete(_) => 8u8,
        MessagePayload::ConflictDetected(_) => 9u8,
        MessagePayload::ConflictResolved(_) => 10u8,
        MessagePayload::SchemaVersion(_) => 11u8,
        MessagePayload::SchemaUpdate(_) => 12u8,
        MessagePayload::RouteMessage(_) => 13u8,
        MessagePayload::MessageDelivered(_) => 14u8,
        MessagePayload::MessageFailed(_) => 15u8,
        MessagePayload::BranchStatus(_) => 16u8,
        MessagePayload::SystemNotification(_) => 17u8,
        MessagePayload::Error(_) => 18u8,
    }
}

/// Encoding of a payload's body, after its tag.
pub open spec fn payload_body(m: MessagePayload) -> Seq<u8> {
    match m {
        MessagePayload::Connect(x) => x.wire(),
        MessagePayload::ConnectAck(x) => x.wire(),
        MessagePayload::Disconnect(x) => x.wire(),
        MessagePayload::Heartbeat => Seq::empty(),
        MessagePayload::HeartbeatAck => Seq::empty(),
        MessagePayload::SyncRequest(x) => x.wire(),
        MessagePayload::SyncBatch(x) => x.wire(),
        MessagePayload::SyncAck(x) => x.wire(),
        MessagePayload::SyncComplete(x) => x.wire(),
        MessagePayload::ConflictDetected(x) => x.wire(),
        MessagePayload::ConflictResolved(x) => x.wire(),
        MessagePayload::SchemaVersion(x) => x.wire(),
        MessagePayload::SchemaUpdate(x) => x.wire(),
        MessagePayload::RouteMessage(x) => x.wire(),
        MessagePayload::MessageDelivered(x) => x.wire(),
        MessagePayload::MessageFailed(x) => x.wire(),
        MessagePayload::BranchStatus(x) => x.wire(),
        MessagePayload::SystemNotification(x) => x.wire(),
        MessagePayload::Error(x) => x.wire(),
    }
}

impl Wire for MessagePayload {
    open spec fn wire(&self) -> Seq<u8> {
        payload_tag(*self).wire() + payload_body(*self)
    }

    open spec fn same(&self, o: &MessagePayload) -> bool {
        match (self, o) {
            (MessagePayload::Connect(x), MessagePayload::Connect(y)) => x.same(y),
            (MessagePayload::ConnectAck(x), MessagePayload::ConnectAck(y)) => x.same(y),
            (MessagePayload::Disconnect(x), MessagePayload::Disconnect(y)) => x.same(y),
            (MessagePayload::Heartbeat, MessagePayload::Heartbeat) => true,
            (MessagePayload::HeartbeatAck, MessagePayload::HeartbeatAck) => true,
            (MessagePayload::SyncRequest(x), MessagePayload::SyncRequest(y)) => x.same(y),
            (MessagePayload::SyncBatch(x), MessagePayload::SyncBatch(y)) => x.same(y),
            (MessagePayload::SyncAck(x), MessagePayload::SyncAck(y)) => x.same(y),
            (MessagePayload::SyncComplete(x), MessagePayload::SyncComplete(y)) => x.same(y),
            (MessagePayload::ConflictDetected(x), MessagePayload::ConflictDetected(y)) => x.same(y),
            (MessagePayload::ConflictResolved(x), MessagePayload::ConflictResolved(y)) => x.same(y),
            (MessagePayload::SchemaVersion(x), MessagePayload::SchemaVersion(y)) => x.same(y),
            (MessagePayload::SchemaUpdate(x), MessagePayload::SchemaUpdate(y)) => x.same(y),
            (MessagePayload::RouteMessage(x), MessagePayload::RouteMessage(y)) => x.same(y),
            (MessagePayload::MessageDelivered(x), MessagePayload::MessageDelivered(y)) => x.same(y),
            (MessagePayload::MessageFailed(x), MessagePayload::MessageFailed(y)) => x.same(y),
            (MessagePayload::BranchStatus(x), MessagePayload::BranchStatus(y)) => x.same(y),
            (MessagePayload::SystemNotification(x), MessagePayload::SystemNotification(y)) => x.same(y),
            (MessagePayload::Error(x), MessagePayload::Error(y)) => x.same(y),
            _ => false,
        }
    }

    open spec fn valid(&self) -> bool {
        match self {
            MessagePayload::Connect(x) => x.valid(),
            MessagePayload::ConnectAck(x) => x.valid(),
            MessagePayload::Disconnect(x) => x.valid(),
            MessagePayload::Heartbeat => true,
            MessagePayload::HeartbeatAck => true,
            MessagePayload::SyncRequest(x) => x.valid(),
            MessagePayload::SyncBatch(x) => x.valid(),
            MessagePayload::SyncAck(x) => x.valid(),
            MessagePayload::SyncComplete(x) => x.valid(),
            MessagePayload::ConflictDetected(x) => x.valid(),
            MessagePayload::ConflictResolved(x) => x.valid(),
            MessagePayload::SchemaVersion(x) => x.valid(),
            MessagePayload::SchemaUpdate(x) => x.valid(),
            MessagePayload::RouteMessage(x) => x.valid(),
            MessagePayload::MessageDelivered(x) => x.valid(),
            MessagePayload::MessageFailed(x) => x.valid(),
            MessagePayload::BranchStatus(x) => x.valid(),
            MessagePayload::SystemNotification(x) => x.valid(),
            MessagePayload::Error(x) => x.valid(),
        }
    }

    proof fn lemma_unique(x: &MessagePayload, y: &MessagePayload, b: Seq<u8>, pos: int) {
        lemma_starts_with_concat(b, pos, payload_tag(*x).wire(), payload_body(*x));
        lemma_starts_with_concat(b, pos, payload_tag(*y).wire(), payload_body(*y));
        u8::lemma_unique(&payload_tag(*x), &payload_tag(*y), b, pos);
        match (x, y) {
            (MessagePayload::Connect(a), MessagePayload::Connect(c)) => ConnectRequest::lemma_unique(a, c, b, pos + 1),
            (MessagePayload::ConnectAck(a), MessagePayload::ConnectAck(c)) => ConnectAck::lemma_unique(a, c, b, pos + 1),
            (MessagePayload::Disconnect(a), MessagePayload::Disconnect(c)) => DisconnectReason::lemma_unique(a, c, b, pos + 1),
            (MessagePayload::SyncRequest(a), MessagePayload::SyncRequest(c)) => SyncRequest::lemma_unique(a, c, b, pos + 1),
            (MessagePayload::SyncBatch(a), MessagePayload::SyncBatch(c)) => SyncBatch::lemma_unique(a, c, b, pos + 1),
            (MessagePayload::SyncAck(a), MessagePayload::SyncAck(c)) => SyncAck::lemma_unique(a, c, b, pos + 1),
            (MessagePayload::SyncComplete(a), MessagePayload::SyncComplete(c)) => SyncComplete::lemma_unique(a, c, b, pos + 1),
            (MessagePayload::ConflictDetected(a), MessagePayload::ConflictDetected(c)) => ConflictNotification::lemma_unique(a, c, b, pos + 1),
            (MessagePayload::ConflictResolved(a), MessagePayload::ConflictResolved(c)) => ConflictResolution::lemma_unique(a, c, b, pos + 1),
            (MessagePayload::SchemaVersion(a), MessagePayload::SchemaVersion(c)) => SchemaVersionInfo::lemma_unique(a, c, b, pos + 1),
            (MessagePayload::SchemaUpdate(a), MessagePayload::SchemaUpdate(c)) => SchemaUpdate::lemma_unique(a, c, b, pos + 1),
            (MessagePayload::RouteMessage(a), MessagePayload::RouteMessage(c)) => RouteMessage::lemma_unique(a, c, b, pos + 1),
            (MessagePayload::MessageDelivered(a), MessagePayload::MessageDelivered(c)) => MessageDelivered::lemma_unique(a, c, b, pos + 1),
            (MessagePayload::MessageFailed(a), MessagePayload::MessageFailed(c)) => MessageFailed::lemma_unique(a, c, b, pos + 1),
            (MessagePayload::BranchStatus(a), MessagePayload::BranchStatus(c)) => BranchStatusUpdate::lemma_unique(a, c, b, pos + 1),
            (MessagePayload::SystemNotification(a), MessagePayload::SystemNotification(c)) => SystemNotification::lemma_unique(a, c, b, pos + 1),
            (MessagePayload::Error(a), MessagePayload::Error(c)) => ErrorPayload::lemma_unique(a, c, b, pos + 1),
            _ => {},
        }
    }

    fn put(&self, out: &mut Vec<u8>) {
        match self {
            MessagePayload::Connect(x) => {
                (0u8).put(out);
                x.put(out);
            },
            MessagePayload::ConnectAck(x) => {
                (1u8).put(out);
                x.put(out);
            },
            MessagePayload::Disconnect(x) => {
                (2u8).put(out);
                x.put(out);
            },
            MessagePayload::Heartbeat => (3u8).put(out),
            MessagePayload::HeartbeatAck => (4u8).put(out),
            MessagePayload::SyncRequest(x) => {
                (5u8).put(out);
                x.put(out);
            },
            MessagePayload::SyncBatch(x) => {
                (6u8).put(out);
                x.put(out);
            },
            MessagePayload::SyncAck(x) => {
                (7u8).put(out);
                x.put(out);
            },
            MessagePayload::SyncComplete(x) => {
                (8u8).put(out);
                x.put(out);
            },
            MessagePayload::ConflictDetected(x) => {
                (9u8).put(out);
                x.put(out);
            },
            MessagePayload::ConflictResolved(x) => {
                (10u8).put(out);
                x.put(out);
            },
            MessagePayload::SchemaVersion(x) => {
                (11u8).put(out);
                x.put(out);
            },
            MessagePayload::SchemaUpdate(x) => {
                (12u8).put(out);
                x.put(out);
            },
            MessagePayload::RouteMessage(x) => {
                (13u8).put(out);
                x.put(out);
            },
            MessagePayload::MessageDelivered(x) => {
                (14u8).put(out);
                x.put(out);
            },
            MessagePayload::MessageFailed(x) => {
                (15u8).put(out);
                x.put(out);
            },
            MessagePayload::BranchStatus(x) => {
                (16u8).put(out);
                x.put(out);
            },
            MessagePayload::SystemNotification(x) => {
                (17u8).put(out);
                x.put(out);
            },
            MessagePayload::Error(x) => {
                (18u8).put(out);
                x.put(out);
            },
        }
        proof {
            assert(final(out)@ =~= old(out)@ + self.wire());
        }
    }

    fn get(buf: &[u8], pos: usize) -> (r: Option<(MessagePayload, usize)>) {
        let (t, q) = match u8::get(buf, pos) {
            None => {
                proof {
                    assert forall|x: MessagePayload| x.valid() && starts_with(buf@, pos as int, #[trigger] x.wire()) implies false by {
                        lemma_starts_with_concat(buf@, pos as int, payload_tag(x).wire(), payload_body(x));
                    }
                }
                return None;
            },
            Some(v) => v,
        };
        proof {
            assert forall|x: MessagePayload| x.valid() && starts_with(buf@, pos as int, #[trigger] x.wire()) implies (payload_tag(x) == t && starts_with(buf@, q as int, payload_body(x))) by {
                lemma_starts_with_concat(buf@, pos as int, payload_tag(x).wire(), payload_body(x));
            }
            assert(buf@.subrange(pos as int, q as int) == t.wire());
        }
        match t {
            0 => match ConnectRequest::get(buf, q) {
                None => None,
                Some((x, p)) => {
                    proof {
                        lemma_subrange_join(buf@, pos as int, q as int, p as int);
                    }
                    Some((MessagePayload::Connect(x), p))
                },
            },
            1 => match ConnectAck::get(buf, q) {
                None => None,
                Some((x, p)) => {
                    proof {
                        lemma_subrange_join(buf@, pos as int, q as int, p as int);
                    }
                    Some((MessagePayload::ConnectAck(x), p))
                },
            },
            2 => match DisconnectReason::get(buf, q) {
                None => None,
                Some((x, p)) => {
                    proof {
                        lemma_subrange_join(buf@, pos as int, q as int, p as int);
                    }
                    Some((MessagePayload::Disconnect(x), p))
                },
            },
            3 => Some((MessagePayload::Heartbeat, q)),
            4 => Some((MessagePayload::HeartbeatAck, q)),
            5 => match SyncRequest::get(buf, q) {
                None => None,
                Some((x, p)) => {
                    proof {
                        lemma_subrange_join(buf@, pos as int, q as int, p as int);
                    }
                    Some((MessagePayload::SyncRequest(x), p))
                },
            },
            6 => match SyncBatch::get(buf, q) {
                None => None,
                Some((x, p)) => {
                    proof {
                        lemma_subrange_join(buf@, pos as int, q as int, p as int);
                    }
                    Some((MessagePayload::SyncBatch(x), p))
                },
            },
            7 => match SyncAck::get(buf, q) {
                None => None,
                Some((x, p)) => {
                    proof {
                        lemma_subrange_join(buf@, pos as int, q as int, p as int);
                    }
                    Some((MessagePayload::SyncAck(x), p))
                },
            },
            8 => match SyncComplete::get(buf, q) {
                None => None,
                Some((x, p)) => {
                    proof {
                        lemma_subrange_join(buf@, pos as int, q as int, p as int);
                    }
                    Some((MessagePayload::SyncComplete(x), p))
                },
            },
            9 => match ConflictNotification::get(buf, q) {
                None => None,
                Some((x, p)) => {
                    proof {
                        lemma_subrange_join(buf@, pos as int, q as int, p as int);
                    }
                    Some((MessagePayload::ConflictDetected(x), p))
                },
            },
            10 => match ConflictResolution::get(buf, q) {
                None => None,
                Some((x, p)) => {
                    proof {
                        lemma_subrange_join(buf@, pos as int, q as int, p as int);
                    }
                    Some((MessagePayload::ConflictResolved(x), p))
                },
            },
            11 => match SchemaVersionInfo::get(buf, q) {
                None => None,
                Some((x, p)) => {
                    proof {
                        lemma_subrange_join(buf@, pos as int, q as int, p as int);
                    }
                    Some((MessagePayload::SchemaVersion(x), p))
                },
            },
            12 => match SchemaUpdate::get(buf, q) {
                None => None,
                Some((x, p)) => {
                    proof {
                        lemma_subrange_join(buf@, pos as int, q as int, p as int);
                    }
                    Some((MessagePayload::SchemaUpdate(x), p))
                },
            },
            13 => match RouteMessage::get(buf, q) {
                None => None,
                Some((x, p)) => {
                    proof {
                        lemma_subrange_join(buf@, pos as int, q as int, p as int);
                    }
                    Some((MessagePayload::RouteMessage(x), p))
                },
            },
            14 => match MessageDelivered::get(buf, q) {
                None => None,
                Some((x, p)) => {
                    proof {
                        lemma_subrange_join(buf@, pos as int, q as int, p as int);
                    }
                    Some((MessagePayload::MessageDelivered(x), p))
                },
            },
            15 => match MessageFailed::get(buf, q) {
                None => None,
                Some((x, p)) => {
                    proof {
                        lemma_subrange_join(buf@, pos as int, q as int, p as int);
                    }
                    Some((MessagePayload::MessageFailed(x), p))
                },
            },
            16 => match BranchStatusUpdate::get(buf, q) {
                None => None,
                Some((x, p)) => {
                    proof {
                        lemma_subrange_join(buf@, pos as int, q as int, p as int);
                    }
                    Some((MessagePayload::BranchStatus(x), p))
                },
            },
            17 => match SystemNotification::get(buf, q) {
                None => None,
                Some((x, p)) => {
                    proof {
                        lemma_subrange_join(buf@, pos as int, q as int, p as int);
                    }
                    Some((MessagePayload::SystemNotification(x), p))
                },
            },
            18 => match ErrorPayload::get(buf, q) {
                None => None,
                Some((x, p)) => {
                    proof {
                        lemma_subrange_join(buf@, pos as int, q as int, p as int);
                    }
                    Some((MessagePayload::Error(x), p))
                },
            },
            _ => None,
        }
    }
}

/// The compact binary codec: length-prefixed, positional, little-endian.
pub struct BincodeCodec;

impl BincodeCodec {
    /// Encodes a message; the bytes are exactly its wire form.
    pub fn encode(&self, message: &Message) -> (r: Result<Vec<u8>, Error>)
        ensures
            r matches Ok(bytes) && bytes@ == message.wire(),
    {
        let mut out: Vec<u8> = Vec::new();
        message.put(&mut out);
        proof {
            assert(out@ =~= message.wire());
        }
        Ok(out)
    }

    /// Decodes a message that fills `data` exactly; any other input, an unknown payload
    /// tag included, is `InvalidMessage`.
    pub fn decode(&self, data: &[u8]) -> (r: Result<Message, Error>)
        ensures
            r matches Ok(m) ==> m.valid() && m.wire() == data@,
            r is Err ==> r matches Err(Error::InvalidMessage(_)),
            forall|m: Message|
                m.valid() && #[trigger] m.wire() == data@ ==> (r matches Ok(y) && y.same(&m)),
    {
        proof {
            assert forall|m: Message| m.valid() && #[trigger] m.wire() == data@ implies starts_with(
                data@,
                0,
                m.wire(),
            ) by {
                assert(data@.subrange(0, data@.len() as int) =~= data@);
            }
        }
        match Message::get(data, 0) {
            Some((m, p)) => {
                if p == data.len() {
                    proof {
                        assert(data@.subrange(0, data@.len() as int) =~= data@);
                    }
                    Ok(m)
                } else {
                    Err(Error::InvalidMessage(String::from_str("trailing bytes after message")))
                }
            },
            None => Err(Error::InvalidMessage(String::from_str("malformed message"))),
        }
    }
}

/// The self-describing text codec: a JSON document whose payload is tagged by `type`
/// and carries its body in `data`. Its field mapping is derived by serde outside the
/// verified core.
pub struct JsonCodec;

/// Which codec a session uses.
#[derive(Debug, Clone, Copy, PartialEq, Eq, Structural)]
pub enum CodecType {
    Json,
    Bincode,
}

/// Round trip of the binary codec: a valid message is the only valid message with its
/// encoding. `decode` returns a valid message whose encoding is the input, so decoding
/// the encoding of `m` yields a message that agrees with `m` field by field.
pub proof fn lemma_round_trip(m: Message, decoded: Message)
    requires
        m.valid(),
        decoded.valid(),
        decoded.wire() == m.wire(),
    ensures
        decoded.same(&m),
{
    let b = m.wire();
    assert(b.subrange(0, b.len() as int) =~= b);
    Message::lemma_unique(&decoded, &m, b, 0);
}

} // verus!
