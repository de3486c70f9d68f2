use vstd::prelude::*;
use crate::error::Error;
use crate::ids::{BranchId, BranchStatus, TenantId};
use crate::messages::Message;
use crate::registry::ConnectionManager;

verus! {

/// A catalog entry for a branch, as the routing decisions read it.
#[derive(Debug, Clone)]
pub struct BranchInfo {
    pub id: BranchId,
    pub tenant_id: TenantId,
    pub name: String,
    pub status: BranchStatus,
    pub last_seen: i64,
}

/// Where a routed message goes.
#[derive(Debug, Clone)]
pub enum Delivery {
    /// The target has a live session: send now.
    Send(BranchId),
    /// The target is offline: keep the message in its offline queue.
    Queue(BranchId),
}

/// Decides the delivery of a message addressed to `target`. `sender_tenant` and
/// `target_tenant` are the tenants the catalog gives for the sender and the target.
pub fn route_direct(
    registry: &ConnectionManager,
    sender_tenant: &TenantId,
    target: &BranchId,
    target_tenant: &TenantId,
) -> (r: Result<Delivery, Error>)
    ensures
        r is Err <==> sender_tenant@ != target_tenant@,
        r matches Err(e) ==> e is AuthorizationFailed,
        r matches Ok(d) ==> sender_tenant@ == target_tenant@ && match d {
            Delivery::Send(b) => b@ == target@ && registry.view().contains_key(target@),
            Delivery::Queue(b) => b@ == target@ && !registry.view().contains_key(target@),
        },
{
    if !sender_tenant.eq_id(target_tenant) {
        return Err(Error::AuthorizationFailed(String::from_str("Cannot route messages across tenants")));
    }
    if registry.is_connected(target) {
        Ok(Delivery::Send(target.clone_id()))
    } else {
        Ok(Delivery::Queue(target.clone_id()))
    }
}

/// A branch receives a broadcast from `from` in tenant `tenant`: it is of that tenant,
/// online in the catalog, connected, and not the sender.
pub open spec fn broadcast_target(
    registry: &ConnectionManager,
    from: Seq<char>,
    tenant: Seq<char>,
    b: BranchInfo,
) -> bool {
    &&& b.tenant_id@ == tenant
    &&& b.status == BranchStatus::Online
    &&& b.id@ != from
    &&& registry.view().contains_key(b.id@)
}

/// Ids of the entries of `members` that receive the broadcast, in order.
pub open spec fn broadcast_recipients(
    registry: &ConnectionManager,
    from: Seq<char>,
    tenant: Seq<char>,
    members: Seq<BranchInfo>,
) -> Seq<Seq<char>>
    decreases members.len(),
{
    if members.len() == 0 {
        Seq::empty()
    } else if broadcast_target(registry, from, tenant, members.last()) {
        broadcast_recipients(registry, from, tenant, members.drop_last()).push(members.last().id@)
    } else {
        broadcast_recipients(registry, from, tenant, members.drop_last())
    }
}

/// `b` is the id of some entry of `members` that receives the broadcast.
pub open spec fn is_recipient(
    registry: &ConnectionManager,
    from: Seq<char>,
    tenant: Seq<char>,
    members: Seq<BranchInfo>,
    b: Seq<char>,
) -> bool {
    exists|j: int|
        #![trigger members[j]]
        0 <= j < members.len() && members[j].id@ == b && broadcast_target(registry, from, tenant, members[j])
}

/// The recipients of a broadcast from `from`, tenant `tenant`, among the tenant's branches
/// `members`, in their order.
pub fn route_broadcast(
    registry: &ConnectionManager,
    from: &BranchId,
    tenant: &TenantId,
    members: &Vec<BranchInfo>,
) -> (r: Vec<BranchId>)
    ensures
        r@.map_values(|b: BranchId| b@) == broadcast_recipients(registry, from@, tenant@, members@),
        r@.len() <= members@.len(),
        forall|i: int|
            0 <= i < r@.len() ==> is_recipient(registry, from@, tenant@, members@, #[trigger] r@[i]@),
        forall|j: int|
            0 <= j < members@.len() && broadcast_target(registry, from@, tenant@, #[trigger] members@[j])
                ==> exists|i: int| 0 <= i < r@.len() && r@[i]@ == members@[j].id@,
{
    let mut out: Vec<BranchId> = Vec::new();
    let mut j: usize = 0;
    while j < members.len()
        invariant
            j <= members@.len(),
            out@.len() <= j,
            out@.map_values(|b: BranchId| b@) == broadcast_recipients(
                registry,
                from@,
                tenant@,
                members@.subrange(0, j as int),
            ),
            forall|i: int|
                0 <= i < out@.len() ==> is_recipient(registry, from@, tenant@, members@, #[trigger] out@[i]@),
            forall|jj: int|
                0 <= jj < j && broadcast_target(registry, from@, tenant@, #[trigger] members@[jj])
                    ==> exists|i: int| 0 <= i < out@.len() && out@[i]@ == members@[jj].id@,
        decreases members@.len() - j,
    {
        let m = &members[j];
        proof {
            assert(members@.subrange(0, j + 1).drop_last() =~= members@.subrange(0, j as int));
            assert(members@.subrange(0, j + 1).last() == members@[j as int]);
        }
        if m.tenant_id.eq_id(tenant) && m.status == BranchStatus::Online && !m.id.eq_id(from)
            && registry.is_connected(&m.id) {
            let ghost prev = out@;
            out.push(m.id.clone_id());
            proof {
                assert(out@.map_values(|b: BranchId| b@) =~= prev.map_values(|b: BranchId| b@).push(
                    members@[j as int].id@,
                ));
                assert(out@[prev.len() as int]@ == members@[j as int].id@);
                assert forall|i: int| 0 <= i < out@.len() implies is_recipient(registry, from@, tenant@, members@, #[trigger] out@[i]@) by {
                    if i < prev.len() {
                        assert(out@[i] == prev[i]);
                    } else {
                        assert(members@[j as int].id@ == out@[i]@);
                    }
                }
                assert forall|jj: int|
                    0 <= jj < j + 1 && broadcast_target(registry, from@, tenant@, #[trigger] members@[jj])
                        implies exists|i: int| 0 <= i < out@.len() && out@[i]@ == members@[jj].id@ by {
                    if jj < j {
                        let i = choose|i: int| 0 <= i < prev.len() && prev[i]@ == members@[jj].id@;
                        assert(out@[i] == prev[i]);
                    } else {
                        assert(out@[prev.len() as int]@ == members@[jj].id@);
                    }
                }
            }
        }
        j = j + 1;
    }
    proof {
        assert(members@.subrange(0, members@.len() as int) =~= members@);
    }
    out
}

/// A message held for a branch that is offline, until `expires_at` (seconds since the
/// Unix epoch).
#[derive(Debug, Clone)]
pub struct QueuedMessage {
    pub to: BranchId,
    pub message: Message,
    pub expires_at: i64,
}

/// The messages of `s` still due to branch `b` at time `now`, in the order they were queued.
pub open spec fn pending_for(s: Seq<QueuedMessage>, b: Seq<char>, now: i64) -> Seq<Message>
    decreases s.len(),
{
    if s.len() == 0 {
        Seq::empty()
    } else if s.last().to@ == b && s.last().expires_at > now {
        pending_for(s.drop_last(), b, now).push(s.last().message)
    } else {
        pending_for(s.drop_last(), b, now)
    }
}

/// The entries of `s` addressed to branches other than `b`, in order.
pub open spec fn others_of(s: Seq<QueuedMessage>, b: Seq<char>) -> Seq<QueuedMessage>
    decreases s.len(),
{
    if s.len() == 0 {
        Seq::empty()
    } else if s.last().to@ == b {
        others_of(s.drop_last(), b)
    } else {
        others_of(s.drop_last(), b).push(s.last())
    }
}

/// Messages held for offline branches, oldest first.
pub struct OfflineQueue {
    pub entries: Vec<QueuedMessage>,
}

impl OfflineQueue {
    pub fn new() -> (r: OfflineQueue)
        ensures
            r.entries@ == Seq::<QueuedMessage>::empty(),
    {
        OfflineQueue { entries: Vec::new() }
    }

    /// Holds `message` for `to` for `ttl_secs` seconds from `now`.
    pub fn push(&mut self, to: BranchId, message: Message, now: i64, ttl_secs: u64)
        ensures
            final(self).entries@ == old(self).entries@.push(
                QueuedMessage {
                    to,
                    message,
                    expires_at: if now + ttl_secs > i64::MAX {
                        i64::MAX
                    } else {
                        (now + ttl_secs) as i64
                    },
                },
            ),
    {
        let e: i128 = now as i128 + ttl_secs as i128;
        let expires_at: i64 = if e > i64::MAX as i128 {
            i64::MAX
        } else {
            e as i64
        };
        self.entries.push(QueuedMessage { to, message, expires_at });
    }

    /// Takes out everything held for `to`: returns the messages not yet expired at `now`,
    /// oldest first, and drops the expired ones.
    pub fn drain(&mut self, to: &BranchId, now: i64) -> (r: Vec<Message>)
        ensures
            r@ == pending_for(old(self).entries@, to@, now),
            final(self).entries@ == others_of(old(self).entries@, to@),
    {
        let mut rest: Vec<QueuedMessage> = Vec::new();
        std::mem::swap(&mut self.entries, &mut rest);
        let ghost all = rest@;
        assert(all.len() <= usize::MAX) by {
            assert(rest.len() == rest@.len());
        }
        let mut out: Vec<Message> = Vec::new();
        let mut i: usize = 0;
        while rest.len() > 0
            invariant
                rest@ == all.subrange(i as int, all.len() as int),
                i <= all.len(),
                all.len() <= usize::MAX,
                out@ == pending_for(all.subrange(0, i as int), to@, now),
                self.entries@ == others_of(all.subrange(0, i as int), to@),
            decreases rest@.len(),
        {
            let e = rest.remove(0);
            proof {
                assert(e == all[i as int]);
                assert(all.subrange(0, i + 1).drop_last() =~= all.subrange(0, i as int));
                assert(all.subrange(0, i + 1).last() == e);
                assert(rest@ =~= all.subrange(i + 1, all.len() as int));
            }
            if e.to.eq_id(to) {
                if e.expires_at > now {
                    out.push(e.message);
                }
            } else {
                self.entries.push(e);
            }
            i = i + 1;
        }
        proof {
            assert(all.subrange(0, all.len() as int) =~= all);
        }
        out
    }
}

proof fn lemma_pending_concat(a: Seq<QueuedMessage>, c: Seq<QueuedMessage>, b: Seq<char>, now: i64)
    ensures
        pending_for(a + c, b, now) == pending_for(a, b, now) + pending_for(c, b, now),
    decreases c.len(),
{
    if c.len() == 0 {
        assert(a + c =~= a);
        assert(pending_for(a, b, now) + Seq::<Message>::empty() =~= pending_for(a, b, now));
    } else {
        lemma_pending_concat(a, c.drop_last(), b, now);
        assert((a + c).drop_last() =~= a + c.drop_last());
        assert((a + c).last() == c.last());
        if c.last().to@ == b && c.last().expires_at > now {
            assert(pending_for(a, b, now) + pending_for(c.drop_last(), b, now).push(c.last().message)
                =~= (pending_for(a, b, now) + pending_for(c.drop_last(), b, now)).push(c.last().message));
        }
    }
}

/// Per-pair FIFO: when `first` and then `second` are queued for the same branch (with any
/// other entries `between` them), a drain at a time when both are still due returns
/// `first` before `second`, and neither moves relative to the other entries for that branch.
pub proof fn lemma_offline_fifo(
    before: Seq<QueuedMessage>,
    first: QueuedMessage,
    between: Seq<QueuedMessage>,
    second: QueuedMessage,
    now: i64,
)
    requires
        first.to@ == second.to@,
        first.expires_at > now,
        second.expires_at > now,
    ensures
        pending_for(before.push(first) + between + seq![second], first.to@, now) == pending_for(
            before,
            first.to@,
            now,
        ).push(first.message) + pending_for(between, first.to@, now) + seq![second.message],
{
    let b = first.to@;
    lemma_pending_concat(before.push(first) + between, seq![second], b, now);
    lemma_pending_concat(before.push(first), between, b, now);
    assert(before.push(first).drop_last() =~= before);
    assert(seq![second].drop_last() =~= Seq::<QueuedMessage>::empty());
    assert(seq![second].last() == second);
    assert(pending_for(Seq::<QueuedMessage>::empty(), b, now) == Seq::<Message>::empty());
    assert(pending_for(seq![second], b, now) == pending_for(Seq::<QueuedMessage>::empty(), b, now).push(second.message));
    assert(Seq::<Message>::empty().push(second.message) =~= seq![second.message]);
}

} // verus!
