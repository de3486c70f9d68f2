use vstd::prelude::*;
use crate::clock::{clocks_equal_spec, concurrent_spec, happens_before_spec, VectorClock};
use crate::error::Error;
use crate::ids::{lex_lt, str_less, BranchId};
use crate::messages::{ts_before, ConflictResolutionType, ConflictStrategy, DatabaseChange};
use crate::wire::Wire;

verus! {

impl DatabaseChange {
    /// A field-by-field copy.
    pub fn copy(&self) -> (r: DatabaseChange)
        ensures
            r.same(self),
    {
        DatabaseChange {
            table_name: self.table_name.clone(),
            operation: self.operation,
            primary_key: self.primary_key.clone(),
            data: self.data.clone(),
            timestamp: self.timestamp,
            schema_version: self.schema_version,
        }
    }
}

/// Two edits conflict when they touch the same row under concurrent, unequal clocks.
pub open spec fn conflict_spec(
    a: DatabaseChange,
    b: DatabaseChange,
    ca: VectorClock,
    cb: VectorClock,
) -> bool {
    &&& a.table_name@ == b.table_name@
    &&& a.primary_key@ == b.primary_key@
    &&& concurrent_spec(ca, cb)
    &&& !clocks_equal_spec(ca, cb)
}

/// Detects and resolves concurrent edits to one row.
pub struct ConflictResolver {
    pub default_strategy: ConflictStrategy,
}

impl ConflictResolver {
    pub fn new(default_strategy: ConflictStrategy) -> (r: ConflictResolver)
        ensures
            r.default_strategy == default_strategy,
    {
        ConflictResolver { default_strategy }
    }

    /// True when the two changes touch the same row and their clocks are concurrent
    /// and not equal.
    pub fn detect_conflict(
        &self,
        change_a: &DatabaseChange,
        change_b: &DatabaseChange,
        clock_a: &VectorClock,
        clock_b: &VectorClock,
    ) -> (r: bool)
        requires
            clock_a.wf(),
            clock_b.wf(),
        ensures
            r == conflict_spec(*change_a, *change_b, *clock_a, *clock_b),
    {
        if change_a.table_name != change_b.table_name {
            return false;
        }
        if change_a.primary_key != change_b.primary_key {
            return false;
        }
        clock_a.is_concurrent(clock_b) && !clock_a.equals(clock_b)
    }

    /// Picks the winner of two conflicting changes by the configured strategy; `a` is
    /// the local change, written at branch `from_a`, and `b` the remote one, from `from_b`.
    /// Equal timestamps go to the greater origin under last-write-wins and field merge,
    /// and to the lesser origin under first-write-wins; with equal origins too, the remote
    /// change wins.
    pub fn resolve_conflict(
        &self,
        change_a: &DatabaseChange,
        change_b: &DatabaseChange,
        _clock_a: &VectorClock,
        _clock_b: &VectorClock,
        from_a: &BranchId,
        from_b: &BranchId,
    ) -> (r: Result<(DatabaseChange, ConflictResolutionType), Error>)
        ensures
            self.default_strategy == ConflictStrategy::LastWriteWins ==> (r matches Ok((w, t)) && if later_wins(
                *change_a,
                from_a@,
                *change_b,
                from_b@,
            ) {
                w.same(change_a) && t == ConflictResolutionType::LocalWins
            } else {
                w.same(change_b) && t == ConflictResolutionType::RemoteWins
            }),
            self.default_strategy == ConflictStrategy::FirstWriteWins ==> (r matches Ok((w, t)) && if earlier_wins(
                *change_a,
                from_a@,
                *change_b,
                from_b@,
            ) {
                w.same(change_a) && t == ConflictResolutionType::LocalWins
            } else {
                w.same(change_b) && t == ConflictResolutionType::RemoteWins
            }),
            self.default_strategy == ConflictStrategy::ManualResolution ==> r matches Err(
                Error::SyncConflict(_),
            ),
            self.default_strategy == ConflictStrategy::MergeFields ==> (r matches Ok((w, t)) && t
                == ConflictResolutionType::Merged && if later_wins(
                *change_a,
                from_a@,
                *change_b,
                from_b@,
            ) {
                w.same(change_a)
            } else {
                w.same(change_b)
            }),
    {
        match self.default_strategy {
            ConflictStrategy::LastWriteWins => {
                if local_is_later(change_a, from_a, change_b, from_b) {
                    Ok((change_a.copy(), ConflictResolutionType::LocalWins))
                } else {
                    Ok((change_b.copy(), ConflictResolutionType::RemoteWins))
                }
            },
            ConflictStrategy::FirstWriteWins => {
                let a_first = change_a.timestamp.is_before(&change_b.timestamp) || (
                change_a.timestamp == change_b.timestamp && str_less(from_a.as_str(), from_b.as_str()));
                if a_first {
                    Ok((change_a.copy(), ConflictResolutionType::LocalWins))
                } else {
                    Ok((change_b.copy(), ConflictResolutionType::RemoteWins))
                }
            },
            ConflictStrategy::ManualResolution => {
                Err(Error::SyncConflict(String::from_str("Manual resolution required")))
            },
            ConflictStrategy::MergeFields => self.merge_changes(change_a, from_a, change_b, from_b),
        }
    }

    /// Field-level merge; without per-column provenance it keeps the change that wins
    /// under last-write-wins, whole.
    fn merge_changes(
        &self,
        change_a: &DatabaseChange,
        from_a: &BranchId,
        change_b: &DatabaseChange,
        from_b: &BranchId,
    ) -> (r: Result<(DatabaseChange, ConflictResolutionType), Error>)
        ensures
            r matches Ok((w, t)) && t == ConflictResolutionType::Merged && if later_wins(
                *change_a,
                from_a@,
                *change_b,
                from_b@,
            ) {
                w.same(change_a)
            } else {
                w.same(change_b)
            },
    {
        if local_is_later(change_a, from_a, change_b, from_b) {
            Ok((change_a.copy(), ConflictResolutionType::Merged))
        } else {
            Ok((change_b.copy(), ConflictResolutionType::Merged))
        }
    }
}

/// Under last-write-wins the local change `a` (from `fa`) beats the remote `b` (from `fb`):
/// it is later, or as late and from the greater origin.
pub open spec fn later_wins(a: DatabaseChange, fa: Seq<char>, b: DatabaseChange, fb: Seq<char>) -> bool {
    ts_before(b.timestamp, a.timestamp) || (a.timestamp == b.timestamp && lex_lt(fb, fa))
}

/// Under first-write-wins the local change `a` (from `fa`) beats the remote `b` (from `fb`):
/// it is earlier, or as early and from the lesser origin.
pub open spec fn earlier_wins(a: DatabaseChange, fa: Seq<char>, b: DatabaseChange, fb: Seq<char>) -> bool {
    ts_before(a.timestamp, b.timestamp) || (a.timestamp == b.timestamp && lex_lt(fa, fb))
}

fn local_is_later(a: &DatabaseChange, fa: &BranchId, b: &DatabaseChange, fb: &BranchId) -> (r: bool)
    ensures
        r == later_wins(*a, fa@, *b, fb@),
{
    b.timestamp.is_before(&a.timestamp) || (a.timestamp == b.timestamp && str_less(
        fb.as_str(),
        fa.as_str(),
    ))
}

/// What a receiving branch does with an incoming change, given the clock it holds for
/// the row and the batch's clock.
#[derive(Debug, Clone, Copy, PartialEq, Eq, Structural)]
pub enum ApplyDecision {
    /// The incoming change is newer: write it.
    Apply,
    /// The incoming change is older than, or the same as, what is held: drop it.
    Discard,
    /// The edits are concurrent: hand both to the resolver.
    Resolve,
}

/// Decides how to treat an incoming change.
pub fn classify_incoming(local: &VectorClock, incoming: &VectorClock) -> (r: ApplyDecision)
    requires
        local.wf(),
        incoming.wf(),
    ensures
        r == ApplyDecision::Apply <==> happens_before_spec(*local, *incoming),
        r == ApplyDecision::Discard <==> (happens_before_spec(*incoming, *local)
            || clocks_equal_spec(*local, *incoming)),
        r == ApplyDecision::Resolve <==> (concurrent_spec(*local, *incoming) && !clocks_equal_spec(
            *local,
            *incoming,
        )),
{
    if local.happens_before(incoming) {
        proof {
            crate::clock::lemma_happens_before_asymmetric(*local, *incoming);
            let k = choose|k: Seq<char>| #[trigger] local.at(k) < incoming.at(k);
            assert(local.at(k) != incoming.at(k));
        }
        ApplyDecision::Apply
    } else if incoming.happens_before(local) || local.equals(incoming) {
        ApplyDecision::Discard
    } else {
        ApplyDecision::Resolve
    }
}

} // verus!
