use vstd::prelude::*;
use crate::ids::BranchId;

verus! {

/// Coordinate of branch `k` in a list of clock entries; absent branches stand at 0.
pub open spec fn coord(s: Seq<(BranchId, u64)>, k: Seq<char>) -> nat {
    if exists|i: int| 0 <= i < s.len() && s[i].0@ == k {
        s[choose|i: int| 0 <= i < s.len() && s[i].0@ == k].1 as nat
    } else {
        0
    }
}

/// No branch appears twice among the entries.
pub open spec fn keys_unique(s: Seq<(BranchId, u64)>) -> bool {
    forall|i: int, j: int| 0 <= i < j < s.len() ==> s[i].0@ != s[j].0@
}

/// `a` happens before `b`: no coordinate of `a` exceeds that of `b`, and one is smaller.
pub open spec fn happens_before_spec(a: VectorClock, b: VectorClock) -> bool {
    &&& forall|k: Seq<char>| #[trigger] a.at(k) <= b.at(k)
    &&& exists|k: Seq<char>| #[trigger] a.at(k) < b.at(k)
}

/// Every coordinate of `a` is at most that of `b`.
pub open spec fn dominated_spec(a: VectorClock, b: VectorClock) -> bool {
    forall|k: Seq<char>| #[trigger] a.at(k) <= b.at(k)
}

/// The clocks agree on every coordinate.
pub open spec fn clocks_equal_spec(a: VectorClock, b: VectorClock) -> bool {
    forall|k: Seq<char>| #[trigger] a.at(k) == b.at(k)
}

/// Neither clock happens before the other.
pub open spec fn concurrent_spec(a: VectorClock, b: VectorClock) -> bool {
    !happens_before_spec(a, b) && !happens_before_spec(b, a)
}

proof fn lemma_coord_at(s: Seq<(BranchId, u64)>, i: int)
    requires
        keys_unique(s),
        0 <= i < s.len(),
    ensures
        coord(s, s[i].0@) == s[i].1,
{
    let k = s[i].0@;
    assert(exists|j: int| 0 <= j < s.len() && s[j].0@ == k);
    let c = choose|j: int| 0 <= j < s.len() && s[j].0@ == k;
    if c != i {
        if c < i {
            assert(s[c].0@ != s[i].0@);
        } else {
            assert(s[i].0@ != s[c].0@);
        }
    }
}

proof fn lemma_coord_absent(s: Seq<(BranchId, u64)>, k: Seq<char>)
    requires
        forall|i: int| 0 <= i < s.len() ==> s[i].0@ != k,
    ensures
        coord(s, k) == 0,
{
}

/// A vector clock: one counter per branch, absent branches at 0.
#[derive(Debug, Clone)]
pub struct VectorClock {
    pub clocks: Vec<(BranchId, u64)>,
}

impl VectorClock {
    /// Each branch has at most one entry.
    pub open spec fn wf(&self) -> bool {
        keys_unique(self.clocks@)
    }

    /// The counter of branch `k`.
    pub open spec fn at(&self, k: Seq<char>) -> nat {
        coord(self.clocks@, k)
    }

    pub fn new() -> (r: VectorClock)
        ensures
            r.wf(),
            r.clocks@.len() == 0,
            forall|k: Seq<char>| #[trigger] r.at(k) == 0,
    {
        VectorClock { clocks: Vec::new() }
    }

    fn find(&self, b: &BranchId) -> (r: Option<usize>)
        requires
            self.wf(),
        ensures
            r matches Some(i) ==> i < self.clocks@.len() && self.clocks@[i as int].0@ == b@,
            r is None ==> forall|i: int| 0 <= i < self.clocks@.len() ==> self.clocks@[i].0@ != b@,
    {
        let mut i: usize = 0;
        while i < self.clocks.len()
            invariant
                i <= self.clocks@.len(),
                forall|j: int| 0 <= j < i ==> self.clocks@[j].0@ != b@,
            decreases self.clocks@.len() - i,
        {
            if self.clocks[i].0.eq_id(b) {
                return Some(i);
            }
            i = i + 1;
        }
        None
    }

    /// The counter of branch `b`.
    pub fn get(&self, b: &BranchId) -> (r: u64)
        requires
            self.wf(),
        ensures
            r == self.at(b@),
    {
        match self.find(b) {
            Some(i) => {
                proof {
                    lemma_coord_at(self.clocks@, i as int);
                }
                self.clocks[i].1
            },
            None => 0,
        }
    }

    /// Sets the counter of branch `b` to `v`, leaving all others.
    pub fn set(&mut self, b: &BranchId, v: u64)
        requires
            old(self).wf(),
        ensures
            final(self).wf(),
            final(self).at(b@) == v,
            forall|k: Seq<char>| k != b@ ==> #[trigger] final(self).at(k) == old(self).at(k),
    {
        let ghost s0 = self.clocks@;
        match self.find(b) {
            Some(i) => {
                let key = self.clocks[i].0.clone_id();
                self.clocks.set(i, (key, v));
                proof {
                    let s1 = self.clocks@;
                    assert(keys_unique(s1)) by {
                        assert forall|x: int, y: int| 0 <= x < y < s1.len() implies s1[x].0@
                            != s1[y].0@ by {
                            assert(s0[x].0@ != s0[y].0@);
                        }
                    }
                    lemma_coord_at(s1, i as int);
                    assert forall|k: Seq<char>| k != b@ implies #[trigger] coord(s1, k) == coord(
                        s0,
                        k,
                    ) by {
                        if exists|j: int| 0 <= j < s0.len() && s0[j].0@ == k {
                            let j = choose|j: int| 0 <= j < s0.len() && s0[j].0@ == k;
                            lemma_coord_at(s0, j);
                            lemma_coord_at(s1, j);
                        } else {
                            assert forall|j: int| 0 <= j < s1.len() implies s1[j].0@ != k by {
                                assert(s0[j].0@ != k);
                            }
                        }
                    }
                }
            },
            None => {
                self.clocks.push((b.clone_id(), v));
                proof {
                    let s1 = self.clocks@;
                    let n = s0.len() as int;
                    assert(keys_unique(s1)) by {
                        assert forall|x: int, y: int| 0 <= x < y < s1.len() implies s1[x].0@
                            != s1[y].0@ by {
                            if y < n {
                                assert(s0[x].0@ != s0[y].0@);
                            } else {
                                assert(s1[x] == s0[x]);
                            }
                        }
                    }
                    lemma_coord_at(s1, n);
                    assert forall|k: Seq<char>| k != b@ implies #[trigger] coord(s1, k) == coord(
                        s0,
                        k,
                    ) by {
                        if exists|j: int| 0 <= j < s0.len() && s0[j].0@ == k {
                            let j = choose|j: int| 0 <= j < s0.len() && s0[j].0@ == k;
                            lemma_coord_at(s0, j);
                            assert(s1[j] == s0[j]);
                            lemma_coord_at(s1, j);
                        } else {
                            assert forall|j: int| 0 <= j < s1.len() implies s1[j].0@ != k by {
                                if j < n {
                                    assert(s1[j] == s0[j]);
                                }
                            }
                        }
                    }
                }
            },
        }
    }

    /// Raises the counter of branch `b` by one.
    pub fn increment(&mut self, b: &BranchId)
        requires
            old(self).wf(),
            old(self).at(b@) < u64::MAX,
        ensures
            final(self).wf(),
            final(self).at(b@) == old(self).at(b@) + 1,
            forall|k: Seq<char>| k != b@ ==> #[trigger] final(self).at(k) == old(self).at(k),
    {
        let v = self.get(b);
        self.set(b, v + 1);
    }

    /// Pointwise maximum with `other`.
    pub fn merge(&mut self, other: &VectorClock)
        requires
            old(self).wf(),
            other.wf(),
        ensures
            final(self).wf(),
            forall|k: Seq<char>|
                #[trigger] final(self).at(k) == if old(self).at(k) >= other.at(k) {
                    old(self).at(k)
                } else {
                    other.at(k)
                },
    {
        let ghost first = *self;
        let mut j: usize = 0;
        while j < other.clocks.len()
            invariant
                other.wf(),
                self.wf(),
                j <= other.clocks@.len(),
                forall|k: Seq<char>|
                    #[trigger] self.at(k) == if (exists|jj: int|
                        0 <= jj < j && other.clocks@[jj].0@ == k) && first.at(k) < other.at(k) {
                        other.at(k)
                    } else {
                        first.at(k)
                    },
            decreases other.clocks@.len() - j,
        {
            let v = other.clocks[j].1;
            let cur = self.get(&other.clocks[j].0);
            proof {
                lemma_coord_at(other.clocks@, j as int);
            }
            let ghost before = *self;
            if v > cur {
                self.set(&other.clocks[j].0, v);
            }
            proof {
                let kj = other.clocks@[j as int].0@;
                assert forall|k: Seq<char>|
                    #[trigger] self.at(k) == if (exists|jj: int|
                        0 <= jj < j + 1 && other.clocks@[jj].0@ == k) && first.at(k) < other.at(
                        k,
                    ) {
                        other.at(k)
                    } else {
                        first.at(k)
                    } by {
                    if k == kj {
                        assert(other.clocks@[j as int].0@ == k);
                        if (exists|jj: int| 0 <= jj < j && other.clocks@[jj].0@ == k) {
                            let jj = choose|jj: int| 0 <= jj < j && other.clocks@[jj].0@ == k;
                            assert(other.clocks@[jj].0@ != other.clocks@[j as int].0@);
                        }
                    } else {
                        if (exists|jj: int| 0 <= jj < j + 1 && other.clocks@[jj].0@ == k) {
                            let jj = choose|jj: int| 0 <= jj < j + 1 && other.clocks@[jj].0@ == k;
                            assert(jj < j);
                        }
                    }
                }
            }
            j = j + 1;
        }
        proof {
            assert forall|k: Seq<char>|
                #[trigger] self.at(k) == if first.at(k) >= other.at(k) {
                    first.at(k)
                } else {
                    other.at(k)
                } by {
                if !(exists|jj: int| 0 <= jj < other.clocks@.len() && other.clocks@[jj].0@ == k) {
                    lemma_coord_absent(other.clocks@, k);
                }
            }
        }
    }

    /// True when `self` happens before `other`.
    pub fn happens_before(&self, other: &VectorClock) -> (r: bool)
        requires
            self.wf(),
            other.wf(),
        ensures
            r == happens_before_spec(*self, *other),
    {
        let mut less_than = false;
        let mut j: usize = 0;
        while j < other.clocks.len()
            invariant
                self.wf(),
                other.wf(),
                j <= other.clocks@.len(),
                forall|jj: int|
                    0 <= jj < j ==> self.at(other.clocks@[jj].0@) <= other.clocks@[jj].1,
                less_than == exists|jj: int|
                    0 <= jj < j && self.at(other.clocks@[jj].0@) < other.clocks@[jj].1,
            decreases other.clocks@.len() - j,
        {
            let oc = other.clocks[j].1;
            let sc = self.get(&other.clocks[j].0);
            proof {
                lemma_coord_at(other.clocks@, j as int);
            }
            if sc > oc {
                proof {
                    let k = other.clocks@[j as int].0@;
                    assert(!(self.at(k) <= other.at(k)));
                }
                return false;
            }
            if sc < oc {
                less_than = true;
            }
            j = j + 1;
        }
        let mut i: usize = 0;
        while i < self.clocks.len()
            invariant
                self.wf(),
                other.wf(),
                i <= self.clocks@.len(),
                forall|jj: int|
                    0 <= jj < other.clocks@.len() ==> self.at(other.clocks@[jj].0@)
                        <= other.clocks@[jj].1,
                less_than == exists|jj: int|
                    0 <= jj < other.clocks@.len() && self.at(other.clocks@[jj].0@)
                        < other.clocks@[jj].1,
                forall|ii: int| 0 <= ii < i ==> self.clocks@[ii].1 <= other.at(self.clocks@[ii].0@),
            decreases self.clocks@.len() - i,
        {
            let sc = self.clocks[i].1;
            let oc = other.get(&self.clocks[i].0);
            proof {
                lemma_coord_at(self.clocks@, i as int);
            }
            if sc > oc {
                proof {
                    let k = self.clocks@[i as int].0@;
                    assert(!(self.at(k) <= other.at(k)));
                }
                return false;
            }
            i = i + 1;
        }
        proof {
            assert forall|k: Seq<char>| #[trigger] self.at(k) <= other.at(k) by {
                if exists|jj: int| 0 <= jj < other.clocks@.len() && other.clocks@[jj].0@ == k {
                    let jj = choose|jj: int| 0 <= jj < other.clocks@.len() && other.clocks@[jj].0@ == k;
                    lemma_coord_at(other.clocks@, jj);
                } else if exists|ii: int| 0 <= ii < self.clocks@.len() && self.clocks@[ii].0@ == k {
                    let ii = choose|ii: int| 0 <= ii < self.clocks@.len() && self.clocks@[ii].0@ == k;
                    lemma_coord_at(self.clocks@, ii);
                }
            }
            if less_than {
                let jj = choose|jj: int|
                    0 <= jj < other.clocks@.len() && self.at(other.clocks@[jj].0@)
                        < other.clocks@[jj].1;
                lemma_coord_at(other.clocks@, jj);
                assert(self.at(other.clocks@[jj].0@) < other.at(other.clocks@[jj].0@));
            } else {
                assert forall|k: Seq<char>| !(#[trigger] self.at(k) < other.at(k)) by {
                    if exists|jj: int| 0 <= jj < other.clocks@.len() && other.clocks@[jj].0@ == k {
                        let jj = choose|jj: int|
                            0 <= jj < other.clocks@.len() && other.clocks@[jj].0@ == k;
                        lemma_coord_at(other.clocks@, jj);
                    }
                }
            }
        }
        less_than
    }

    /// True when neither clock happens before the other.
    pub fn is_concurrent(&self, other: &VectorClock) -> (r: bool)
        requires
            self.wf(),
            other.wf(),
        ensures
            r == concurrent_spec(*self, *other),
    {
        !self.happens_before(other) && !other.happens_before(self)
    }
}

/// Happens-before is asymmetric: if `a` happens before `b`, then `b` does not happen
/// before `a`.
pub proof fn lemma_happens_before_asymmetric(a: VectorClock, b: VectorClock)
    requires
        happens_before_spec(a, b),
    ensures
        !happens_before_spec(b, a),
{
    let k = choose|k: Seq<char>| #[trigger] a.at(k) < b.at(k);
    assert(a.at(k) < b.at(k));
}

impl VectorClock {
    /// True when no coordinate of `self` exceeds that of `other`.
    pub fn dominated_by(&self, other: &VectorClock) -> (r: bool)
        requires
            self.wf(),
            other.wf(),
        ensures
            r == dominated_spec(*self, *other),
    {
        let mut i: usize = 0;
        while i < self.clocks.len()
            invariant
                self.wf(),
                other.wf(),
                i <= self.clocks@.len(),
                forall|ii: int| 0 <= ii < i ==> self.clocks@[ii].1 <= other.at(self.clocks@[ii].0@),
            decreases self.clocks@.len() - i,
        {
            let sc = self.clocks[i].1;
            let oc = other.get(&self.clocks[i].0);
            proof {
                lemma_coord_at(self.clocks@, i as int);
            }
            if sc > oc {
                proof {
                    let k = self.clocks@[i as int].0@;
                    assert(!(self.at(k) <= other.at(k)));
                }
                return false;
            }
            i = i + 1;
        }
        proof {
            assert forall|k: Seq<char>| #[trigger] self.at(k) <= other.at(k) by {
                if exists|ii: int| 0 <= ii < self.clocks@.len() && self.clocks@[ii].0@ == k {
                    let ii = choose|ii: int| 0 <= ii < self.clocks@.len() && self.clocks@[ii].0@ == k;
                    lemma_coord_at(self.clocks@, ii);
                }
            }
        }
        true
    }

    /// True when the clocks agree on every coordinate.
    pub fn equals(&self, other: &VectorClock) -> (r: bool)
        requires
            self.wf(),
            other.wf(),
        ensures
            r == clocks_equal_spec(*self, *other),
    {
        let r = self.dominated_by(other) && other.dominated_by(self);
        proof {
            if !r {
                if !dominated_spec(*self, *other) {
                    let k = choose|k: Seq<char>| !(#[trigger] self.at(k) <= other.at(k));
                    assert(self.at(k) != other.at(k));
                } else {
                    let k = choose|k: Seq<char>| !(#[trigger] other.at(k) <= self.at(k));
                    assert(self.at(k) != other.at(k));
                }
            }
        }
        r
    }
}

} // verus!
