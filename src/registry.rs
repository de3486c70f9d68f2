use vstd::prelude::*;
use crate::error::Error;
use crate::ids::BranchId;

verus! {

#[verifier::external_type_specification]
#[verifier::external_body]
#[verifier::reject_recursive_types(K)]
#[verifier::reject_recursive_types(V)]
#[verifier::reject_recursive_types(S)]
pub struct ExDashMap<K, V, S>(dashmap::DashMap<K, V, S>);

/// What the hub keeps about one live session; times are seconds since the Unix epoch.
#[derive(Debug, Clone, Copy, PartialEq, Eq, Structural)]
pub struct ConnectionMetadata {
    pub connected_at: i64,
    pub last_heartbeat: i64,
    pub message_count: u64,
}

/// The map of live sessions held in a `DashMap`, keyed by branch id text.
pub type SessionMap = dashmap::DashMap<String, ConnectionMetadata>;

/// Entries of a session map.
pub uninterp spec fn session_entries(m: SessionMap) -> Map<Seq<char>, ConnectionMetadata>;

/// Relies on `DashMap::new`: an empty map.
#[verifier::external_body]
fn sessions_new() -> (r: SessionMap)
    ensures
        session_entries(r).dom() == Set::<Seq<char>>::empty(),
{
    dashmap::DashMap::new()
}

/// Relies on `DashMap::len`: the number of key-value pairs stored.
#[verifier::external_body]
fn sessions_len(m: &SessionMap) -> (r: usize)
    requires
        session_entries(*m).dom().finite(),
    ensures
        r == session_entries(*m).len(),
{
    m.len()
}

/// Relies on `DashMap::insert`: the key now maps to the value, other keys unchanged.
#[verifier::external_body]
fn sessions_insert(m: &mut SessionMap, k: String, v: ConnectionMetadata)
    ensures
        session_entries(*final(m)) == session_entries(*old(m)).insert(k@, v),
{
    m.insert(k, v);
}

/// Relies on `DashMap::remove`: the key is gone, other keys unchanged.
#[verifier::external_body]
fn sessions_remove(m: &mut SessionMap, k: &str)
    ensures
        session_entries(*final(m)) == session_entries(*old(m)).remove(k@),
{
    m.remove(k);
}

/// Relies on `DashMap::get`: the value stored under the key, if any.
#[verifier::external_body]
fn sessions_get(m: &SessionMap, k: &str) -> (r: Option<ConnectionMetadata>)
    ensures
        session_entries(*m).contains_key(k@) ==> r == Some(session_entries(*m)[k@]),
        !session_entries(*m).contains_key(k@) ==> r is None,
{
    m.get(k).map(|e| *e.value())
}

/// Relies on `DashMap::iter`: every key once, in no promised order.
#[verifier::external_body]
fn sessions_keys(m: &SessionMap) -> (r: Vec<String>)
    ensures
        forall|i: int, j: int| 0 <= i < j < r@.len() ==> r@[i]@ != r@[j]@,
        forall|i: int| 0 <= i < r@.len() ==> session_entries(*m).contains_key(#[trigger] r@[i]@),
        forall|k: Seq<char>|
            session_entries(*m).contains_key(k) ==> exists|i: int| 0 <= i < r@.len() && #[trigger] r@[i]@ == k,
{
    m.iter().map(|e| e.key().clone()).collect()
}

/// A session is stale when its last heartbeat is more than `timeout` seconds before `now`.
pub open spec fn is_stale(meta: ConnectionMetadata, now: i64, timeout: u64) -> bool {
    now - meta.last_heartbeat > timeout
}

/// The hub's registry of live sessions, with its admission limit.
pub struct ConnectionManager {
    connections: SessionMap,
    max_connections: usize,
}

impl ConnectionManager {
    /// The sessions, by branch id.
    pub closed spec fn view(&self) -> Map<Seq<char>, ConnectionMetadata> {
        session_entries(self.connections)
    }

    /// The admission limit.
    pub closed spec fn limit(&self) -> usize {
        self.max_connections
    }

    /// The registry never holds more than `limit()` sessions.
    pub closed spec fn wf(&self) -> bool {
        self.view().dom().finite() && self.view().len() <= self.max_connections
    }

    /// The admission limit.
    pub fn max_connections(&self) -> (r: usize)
        ensures
            r == self.limit(),
    {
        self.max_connections
    }

    pub fn new(max_connections: usize) -> (r: ConnectionManager)
        ensures
            r.wf(),
            r.view().dom() == Set::<Seq<char>>::empty(),
            r.limit() == max_connections,
    {
        ConnectionManager { connections: sessions_new(), max_connections }
    }

    /// Number of live sessions.
    pub fn len(&self) -> (r: usize)
        requires
            self.wf(),
        ensures
            r == self.view().len(),
    {
        sessions_len(&self.connections)
    }

    /// Admits a session for `branch_id` at time `now`, unless the registry is full.
    pub fn add_connection(&mut self, branch_id: &BranchId, now: i64) -> (r: Result<(), Error>)
        requires
            old(self).wf(),
        ensures
            final(self).wf(),
            final(self).limit() == old(self).limit(),
            r is Err <==> old(self).view().len() >= old(self).limit(),
            r matches Err(e) ==> (e matches Error::ConnectionError(m) && m@ == "Max connections reached"@)
                && final(self).view() == old(self).view(),
            r is Ok ==> final(self).view() == old(self).view().insert(
                branch_id@,
                ConnectionMetadata { connected_at: now, last_heartbeat: now, message_count: 0 },
            ),
    {
        if sessions_len(&self.connections) >= self.max_connections {
            return Err(Error::ConnectionError(String::from_str("Max connections reached")));
        }
        let meta = ConnectionMetadata { connected_at: now, last_heartbeat: now, message_count: 0 };
        sessions_insert(&mut self.connections, branch_id.0.clone(), meta);
        proof {
            let m0 = session_entries(old(self).connections);
            if m0.contains_key(branch_id@) {
                assert(m0.insert(branch_id@, meta).dom() =~= m0.dom());
            } else {
                assert(m0.insert(branch_id@, meta).dom() =~= m0.dom().insert(branch_id@));
            }
        }
        Ok(())
    }

    /// Drops the session of `branch_id`, if any.
    pub fn remove_connection(&mut self, branch_id: &BranchId)
        requires
            old(self).wf(),
        ensures
            final(self).wf(),
            final(self).limit() == old(self).limit(),
            final(self).view() == old(self).view().remove(branch_id@),
    {
        sessions_remove(&mut self.connections, branch_id.as_str());
        proof {
            let m0 = session_entries(old(self).connections);
            assert(m0.remove(branch_id@).dom() =~= m0.dom().remove(branch_id@));
        }
    }

    /// True when `branch_id` has a live session.
    pub fn is_connected(&self, branch_id: &BranchId) -> (r: bool)
        ensures
            r == self.view().contains_key(branch_id@),
    {
        sessions_get(&self.connections, branch_id.as_str()).is_some()
    }

    /// What the registry holds for `branch_id`.
    pub fn metadata(&self, branch_id: &BranchId) -> (r: Option<ConnectionMetadata>)
        ensures
            self.view().contains_key(branch_id@) ==> r == Some(self.view()[branch_id@]),
            !self.view().contains_key(branch_id@) ==> r is None,
    {
        sessions_get(&self.connections, branch_id.as_str())
    }

    fn replace(&mut self, branch_id: &BranchId, meta: ConnectionMetadata)
        requires
            old(self).wf(),
            old(self).view().contains_key(branch_id@),
        ensures
            final(self).wf(),
            final(self).limit() == old(self).limit(),
            final(self).view() == old(self).view().insert(branch_id@, meta),
    {
        sessions_insert(&mut self.connections, branch_id.0.clone(), meta);
        proof {
            let m0 = session_entries(old(self).connections);
            assert(m0.insert(branch_id@, meta).dom() =~= m0.dom());
        }
    }

    /// Records a heartbeat from `branch_id` at time `now`.
    pub fn update_heartbeat(&mut self, branch_id: &BranchId, now: i64)
        requires
            old(self).wf(),
        ensures
            final(self).wf(),
            final(self).limit() == old(self).limit(),
            old(self).view().contains_key(branch_id@) ==> final(self).view() == old(self).view().insert(
                branch_id@,
                ConnectionMetadata { last_heartbeat: now, ..old(self).view()[branch_id@] },
            ),
            !old(self).view().contains_key(branch_id@) ==> final(self).view() == old(self).view(),
    {
        match sessions_get(&self.connections, branch_id.as_str()) {
            Some(meta) => {
                self.replace(
                    branch_id,
                    ConnectionMetadata { last_heartbeat: now, ..meta },
                );
            },
            None => {},
        }
    }

    /// Counts one message sent to `branch_id` (the count saturates).
    pub fn record_sent(&mut self, branch_id: &BranchId)
        requires
            old(self).wf(),
        ensures
            final(self).wf(),
            final(self).limit() == old(self).limit(),
            old(self).view().contains_key(branch_id@) ==> final(self).view() == old(self).view().insert(
                branch_id@,
                ConnectionMetadata {
                    message_count: if old(self).view()[branch_id@].message_count < u64::MAX {
                        (old(self).view()[branch_id@].message_count + 1) as u64
                    } else {
                        u64::MAX
                    },
                    ..old(self).view()[branch_id@]
                },
            ),
            !old(self).view().contains_key(branch_id@) ==> final(self).view() == old(self).view(),
    {
        match sessions_get(&self.connections, branch_id.as_str()) {
            Some(meta) => {
                let c = if meta.message_count < u64::MAX {
                    meta.message_count + 1
                } else {
                    u64::MAX
                };
                self.replace(branch_id, ConnectionMetadata { message_count: c, ..meta });
            },
            None => {},
        }
    }

    /// Closes every stale session and returns the branches closed.
    pub fn sweep_stale(&mut self, now: i64, timeout_secs: u64) -> (r: Vec<BranchId>)
        requires
            old(self).wf(),
        ensures
            final(self).wf(),
            final(self).limit() == old(self).limit(),
            forall|k: Seq<char>|
                #[trigger] final(self).view().contains_key(k) <==> (old(self).view().contains_key(k)
                    && !is_stale(old(self).view()[k], now, timeout_secs)),
            forall|k: Seq<char>|
                #[trigger] final(self).view().contains_key(k) ==> final(self).view()[k] == old(
                    self,
                ).view()[k],
            forall|i: int|
                0 <= i < r@.len() ==> old(self).view().contains_key(#[trigger] r@[i]@) && is_stale(
                    old(self).view()[r@[i]@],
                    now,
                    timeout_secs,
                ),
            forall|k: Seq<char>|
                old(self).view().contains_key(k) && is_stale(old(self).view()[k], now, timeout_secs)
                    ==> exists|i: int| 0 <= i < r@.len() && #[trigger] r@[i]@ == k,
            forall|i: int, j: int| 0 <= i < j < r@.len() ==> r@[i]@ != r@[j]@,
    {
        let ghost m0 = self.view();
        let keys = sessions_keys(&self.connections);
        let mut closed: Vec<BranchId> = Vec::new();
        let mut i: usize = 0;
        while i < keys.len()
            invariant
                self.wf(),
                self.limit() == old(self).limit(),
                m0 == old(self).view(),
                i <= keys@.len(),
                forall|a: int, c: int| 0 <= a < c < keys@.len() ==> keys@[a]@ != keys@[c]@,
                forall|a: int| 0 <= a < keys@.len() ==> m0.contains_key(#[trigger] keys@[a]@),
                forall|k: Seq<char>|
                    m0.contains_key(k) ==> exists|a: int| 0 <= a < keys@.len() && #[trigger] keys@[a]@ == k,
                forall|k: Seq<char>|
                    #[trigger] self.view().contains_key(k) <==> (m0.contains_key(k) && !(is_stale(
                        m0[k],
                        now,
                        timeout_secs,
                    ) && exists|a: int| 0 <= a < i && keys@[a]@ == k)),
                forall|k: Seq<char>| #[trigger] self.view().contains_key(k) ==> self.view()[k] == m0[k],
                forall|c: int|
                    0 <= c < closed@.len() ==> m0.contains_key(#[trigger] closed@[c]@) && is_stale(
                        m0[closed@[c]@],
                        now,
                        timeout_secs,
                    ),
                forall|a: int|
                    0 <= a < i && is_stale(m0[keys@[a]@], now, timeout_secs) ==> exists|c: int|
                        0 <= c < closed@.len() && #[trigger] closed@[c]@ == keys@[a]@,
                forall|c: int|
                    0 <= c < closed@.len() ==> exists|a: int| 0 <= a < i && keys@[a]@ == #[trigger] closed@[c]@,
                forall|c1: int, c2: int| 0 <= c1 < c2 < closed@.len() ==> closed@[c1]@ != closed@[c2]@,
            decreases keys@.len() - i,
        {
            let ghost before = self.view();
            let ghost closed0 = closed@;
            let k = &keys[i];
            let meta = sessions_get(&self.connections, k.as_str());
            proof {
                assert(m0.contains_key(k@));
                assert(!(exists|a: int| 0 <= a < i && keys@[a]@ == k@)) by {
                    if exists|a: int| 0 <= a < i && keys@[a]@ == k@ {
                        let a = choose|a: int| 0 <= a < i && keys@[a]@ == k@;
                        assert(keys@[a]@ != keys@[i as int]@);
                    }
                }
                assert(before.contains_key(k@));
            }
            match meta {
                Some(mt) => {
                    if now as i128 - mt.last_heartbeat as i128 > timeout_secs as i128 {
                        sessions_remove(&mut self.connections, k.as_str());
                        closed.push(BranchId(k.clone()));
                        proof {
                            assert(before.remove(k@).dom() =~= before.dom().remove(k@));
                            assert(closed@[closed0.len() as int]@ == keys@[i as int]@);
                            assert forall|c: int|
                                0 <= c < closed@.len() implies exists|a: int| 0 <= a < i + 1 && keys@[a]@ == #[trigger] closed@[c]@ by {
                                if c < closed0.len() {
                                    assert(closed@[c] == closed0[c]);
                                    let a = choose|a: int| 0 <= a < i && keys@[a]@ == closed0[c]@;
                                    assert(keys@[a]@ == closed@[c]@);
                                } else {
                                    assert(keys@[i as int]@ == closed@[c]@);
                                }
                            }
                            assert forall|c1: int, c2: int| 0 <= c1 < c2 < closed@.len() implies closed@[c1]@ != closed@[c2]@ by {
                                assert(closed@[c1] == closed0[c1]);
                                if c2 < closed0.len() {
                                    assert(closed@[c2] == closed0[c2]);
                                } else {
                                    let a = choose|a: int| 0 <= a < i && keys@[a]@ == closed0[c1]@;
                                    assert(keys@[a]@ != keys@[i as int]@);
                                }
                            }
                            assert forall|c: int| 0 <= c < closed@.len() implies m0.contains_key(#[trigger] closed@[c]@) && is_stale(m0[closed@[c]@], now, timeout_secs) by {
                                if c < closed0.len() {
                                    assert(closed@[c] == closed0[c]);
                                }
                            }
                            assert forall|a: int| 0 <= a < i + 1 && is_stale(m0[keys@[a]@], now, timeout_secs) implies exists|c: int|
                                0 <= c < closed@.len() && #[trigger] closed@[c]@ == keys@[a]@ by {
                                if a < i {
                                    let c = choose|c: int| 0 <= c < closed0.len() && closed0[c]@ == keys@[a]@;
                                    assert(closed@[c] == closed0[c]);
                                } else {
                                    assert(closed@[closed0.len() as int]@ == keys@[a]@);
                                }
                            }
                        }
                    } else {
                        proof {
                            assert forall|a: int| 0 <= a < i + 1 && is_stale(m0[keys@[a]@], now, timeout_secs) implies exists|c: int|
                                0 <= c < closed@.len() && #[trigger] closed@[c]@ == keys@[a]@ by {
                                if a == i {
                                    assert(false);
                                }
                            }
                        }
                    }
                },
                None => {},
            }
            proof {
                assert forall|kk: Seq<char>|
                    #[trigger] self.view().contains_key(kk) <==> (m0.contains_key(kk) && !(is_stale(
                        m0[kk],
                        now,
                        timeout_secs,
                    ) && exists|a: int| 0 <= a < i + 1 && keys@[a]@ == kk)) by {
                    if exists|a: int| 0 <= a < i + 1 && keys@[a]@ == kk {
                        let a = choose|a: int| 0 <= a < i + 1 && keys@[a]@ == kk;
                        if a < i {
                            assert(exists|a2: int| 0 <= a2 < i && keys@[a2]@ == kk);
                        }
                    } else {
                        assert(!(exists|a2: int| 0 <= a2 < i && keys@[a2]@ == kk));
                        assert(kk != k@);
                    }
                }
            }
            i = i + 1;
        }
        closed
    }

    /// A snapshot of every session.
    pub fn list_connections(&self) -> (r: Vec<(BranchId, ConnectionMetadata)>)
        ensures
            forall|i: int|
                0 <= i < r@.len() ==> self.view().contains_key(#[trigger] r@[i].0@) && self.view()[r@[i].0@]
                    == r@[i].1,
            forall|k: Seq<char>|
                self.view().contains_key(k) ==> exists|i: int| 0 <= i < r@.len() && #[trigger] r@[i].0@ == k,
            forall|i: int, j: int| 0 <= i < j < r@.len() ==> r@[i].0@ != r@[j].0@,
    {
        let keys = sessions_keys(&self.connections);
        let mut out: Vec<(BranchId, ConnectionMetadata)> = Vec::new();
        let mut i: usize = 0;
        while i < keys.len()
            invariant
                i <= keys@.len(),
                forall|a: int| 0 <= a < keys@.len() ==> self.view().contains_key(#[trigger] keys@[a]@),
                forall|k: Seq<char>|
                    self.view().contains_key(k) ==> exists|a: int| 0 <= a < keys@.len() && #[trigger] keys@[a]@ == k,
                out@.len() == i,
                forall|a: int, c: int| 0 <= a < c < keys@.len() ==> keys@[a]@ != keys@[c]@,
                forall|a: int| 0 <= a < i ==> #[trigger] out@[a].0@ == keys@[a]@ && self.view()[keys@[a]@] == out@[a].1,
            decreases keys@.len() - i,
        {
            let k = &keys[i];
            match sessions_get(&self.connections, k.as_str()) {
                Some(meta) => {
                    out.push((BranchId(k.clone()), meta));
                },
                None => {
                    proof {
                        assert(self.view().contains_key(keys@[i as int]@));
                    }
                },
            }
            i = i + 1;
        }
        proof {
            assert forall|k: Seq<char>| self.view().contains_key(k) implies exists|a: int| 0 <= a < out@.len() && #[trigger] out@[a].0@ == k by {
                let a = choose|a: int| 0 <= a < keys@.len() && keys@[a]@ == k;
                assert(out@[a].0@ == keys@[a]@);
            }
        }
        out
    }
}

/// Admission control: a well-formed registry holds at most `limit()` sessions, and every
/// operation above keeps it well-formed.
pub proof fn lemma_registry_bounded(m: &ConnectionManager)
    requires
        m.wf(),
    ensures
        m.view().dom().finite(),
        m.view().len() <= m.limit(),
{
}

} // verus!
