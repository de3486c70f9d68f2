use vstd::prelude::*;
use crate::clock::VectorClock;
use crate::ids::BranchId;
use crate::messages::{
    DatabaseChange, FailedChange, Message, MessagePayload, Operation, SyncAck, SyncBatch, Timestamp,
};

verus! {

impl DatabaseChange {
    /// A change read from the change log; the schema version is 1.
    pub fn from_log_row(
        table_name: String,
        operation: &str,
        primary_key: String,
        row_data: String,
        changed_at: Timestamp,
    ) -> (r: DatabaseChange)
        ensures
            r.table_name@ == table_name@,
            r.operation == (if operation@ == "UPDATE"@ {
                Operation::Update
            } else if operation@ == "DELETE"@ {
                Operation::Delete
            } else {
                Operation::Insert
            }),
            r.primary_key@ == primary_key@,
            r.data@ == row_data@,
            r.timestamp == changed_at,
            r.schema_version == 1,
    {
        DatabaseChange {
            table_name,
            operation: Operation::from_db(operation),
            primary_key,
            data: row_data,
            timestamp: changed_at,
            schema_version: 1,
        }
    }
}

/// The acknowledgement of a batch of `total` changes of which `failed` could not be applied.
pub fn build_sync_ack(transaction_id: String, total: usize, failed: Vec<FailedChange>) -> (r:
    Option<SyncAck>)
    ensures
        r is Some <==> failed@.len() <= total,
        r matches Some(a) ==> a.transaction_id@ == transaction_id@ && a.applied_changes == total
            - failed@.len() && a.failed_changes@ == failed@,
{
    if failed.len() > total {
        return None;
    }
    let applied = total - failed.len();
    Some(SyncAck { transaction_id, applied_changes: applied, failed_changes: failed })
}

/// A `SyncBatch` message from `from`, broadcast to its tenant.
pub fn build_sync_batch(
    from: BranchId,
    transaction_id: String,
    vector_clock: VectorClock,
    changes: Vec<DatabaseChange>,
    is_final: bool,
) -> (r: Message)
    ensures
        r.from == from,
        r.to is None,
        r.payload matches MessagePayload::SyncBatch(b) && b.transaction_id == transaction_id
            && b.vector_clock == vector_clock && b.changes == changes && b.is_final == is_final,
{
    let batch = SyncBatch { transaction_id, vector_clock, changes, is_final };
    Message::new(from, None, MessagePayload::SyncBatch(batch))
}

} // verus!
