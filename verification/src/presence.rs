//! The presence table: which identities are currently present (joined) in
//! each community.

use vstd::prelude::*;

verus! {

/// Whether some entry is the (community, identity) pair.
pub closed spec fn has_pair(es: Seq<(i32, i32)>, c: int, u: int) -> bool {
    exists|i: int| 0 <= i < es.len() && es[i].0 as int == c && es[i].1 as int == u
}

/// Set of (community, identity) pairs meaning "this identity currently has a
/// live, joined connection in this community".
///
/// Stored as a duplicate-free list of pairs; its view is the set of pairs.
pub struct PresenceTable {
    entries: Vec<(i32, i32)>,
}

impl View for PresenceTable {
    type V = Set<(int, int)>;

    closed spec fn view(&self) -> Set<(int, int)> {
        Set::new(|p: (int, int)| has_pair(self.entries@, p.0, p.1))
    }
}

impl PresenceTable {
    /// No pair occurs twice.
    pub closed spec fn inv(self) -> bool {
        forall|i: int, j: int|
            0 <= i < j < self.entries@.len() ==> self.entries@[i] != self.entries@[j]
    }

    /// An empty table: nobody is present anywhere.
    pub fn new() -> (r: PresenceTable)
        ensures
            r.inv(),
            r@ == Set::<(int, int)>::empty(),
    {
        let r = PresenceTable { entries: Vec::new() };
        proof {
            assert(r@ =~= Set::<(int, int)>::empty());
        }
        r
    }

    /// Whether the identity is present in the community.
    pub fn contains(&self, community_id: i32, user_id: i32) -> (r: bool)
        ensures
            r == self@.contains((community_id as int, user_id as int)),
    {
        let n = self.entries.len();
        let mut i: usize = 0;
        while i < n
            invariant
                n == self.entries@.len(),
                0 <= i <= n,
                forall|j: int|
                    0 <= j < i ==> !(self.entries@[j].0 == community_id && self.entries@[j].1
                        == user_id),
            decreases n - i,
        {
            if self.entries[i].0 == community_id && self.entries[i].1 == user_id {
                proof {
                    assert(has_pair(self.entries@, community_id as int, user_id as int));
                }
                return true;
            }
            i = i + 1;
        }
        proof {
            assert(!has_pair(self.entries@, community_id as int, user_id as int));
        }
        false
    }

    /// Record the identity as present in the community; inserting a pair that
    /// is already present changes nothing.
    pub fn add(&mut self, community_id: i32, user_id: i32)
        requires
            old(self).inv(),
        ensures
            final(self).inv(),
            final(self)@ == old(self)@.insert((community_id as int, user_id as int)),
    {
        if self.contains(community_id, user_id) {
            proof {
                assert(self@ =~= old(self)@.insert((community_id as int, user_id as int)));
            }
            return ;
        }
        let ghost os = self.entries@;
        self.entries.push((community_id, user_id));
        proof {
            let c = community_id as int;
            let u = user_id as int;
            let es = self.entries@;
            assert(es == os.push((community_id, user_id)));
            assert(!has_pair(os, c, u));
            assert forall|i: int, j: int| 0 <= i < j < es.len() implies es[i] != es[j] by {
                if j < es.len() - 1 {
                    assert(os[i] != os[j]);
                } else {
                    assert(es[i] == os[i]);
                    if es[i] == (community_id, user_id) {
                        assert(has_pair(os, c, u));
                    }
                }
            }
            assert forall|p: (int, int)| #![auto] self@.contains(p) == old(self)@.insert(
                (c, u),
            ).contains(p) by {
                if has_pair(es, p.0, p.1) {
                    let i = choose|i: int|
                        0 <= i < es.len() && es[i].0 as int == p.0 && es[i].1 as int == p.1;
                    if i < os.len() {
                        assert(os[i] == es[i]);
                        assert(has_pair(os, p.0, p.1));
                    } else {
                        assert(p == (c, u));
                    }
                }
                if has_pair(os, p.0, p.1) {
                    let i = choose|i: int|
                        0 <= i < os.len() && os[i].0 as int == p.0 && os[i].1 as int == p.1;
                    assert(es[i] == os[i]);
                    assert(has_pair(es, p.0, p.1));
                }
                if p == (c, u) {
                    assert(es[es.len() - 1] == (community_id, user_id));
                    assert(has_pair(es, p.0, p.1));
                }
            }
            assert(self@ =~= old(self)@.insert((c, u)));
        }
    }

    /// Remove the identity's presence in the community; removing an absent
    /// pair is a no-op, not an error.
    pub fn remove(&mut self, community_id: i32, user_id: i32)
        requires
            old(self).inv(),
        ensures
            final(self).inv(),
            final(self)@ == old(self)@.remove((community_id as int, user_id as int)),
    {
        let ghost orig = *old(self);
        let n = self.entries.len();
        let mut i: usize = 0;
        while i < n
            invariant
                n == self.entries@.len(),
                0 <= i <= n,
                *self == orig,
                orig == *old(self),
                orig.inv(),
                forall|j: int|
                    0 <= j < i ==> !(self.entries@[j].0 == community_id && self.entries@[j].1
                        == user_id),
            decreases n - i,
        {
            if self.entries[i].0 == community_id && self.entries[i].1 == user_id {
                let ghost os = orig.entries@;
                self.entries.remove(i);
                proof {
                    let c = community_id as int;
                    let u = user_id as int;
                    let es = self.entries@;
                    assert(es == os.remove(i as int));
                    assert(os[i as int] == (community_id, user_id));
                    assert forall|k: int, l: int| 0 <= k < l < es.len() implies es[k] != es[l] by {
                        let k0: int = if k < i as int {
                            k
                        } else {
                            k + 1
                        };
                        let l0: int = if l < i as int {
                            l
                        } else {
                            l + 1
                        };
                        assert(es[k] == os[k0] && es[l] == os[l0]);
                    }
                    assert forall|p: (int, int)| #![auto] self@.contains(p) == orig@.remove(
                        (c, u),
                    ).contains(p) by {
                        if has_pair(es, p.0, p.1) {
                            let k = choose|k: int|
                                0 <= k < es.len() && es[k].0 as int == p.0 && es[k].1 as int
                                    == p.1;
                            let k0: int = if k < i as int {
                                k
                            } else {
                                k + 1
                            };
                            assert(es[k] == os[k0]);
                            assert(has_pair(os, p.0, p.1));
                            if p == (c, u) {
                                assert(os[k0] == os[i as int]);
                                if k0 < i as int {
                                    assert(os[k0] != os[i as int]);
                                } else if k0 > i as int {
                                    assert(os[i as int] != os[k0]);
                                }
                            }
                        }
                        if has_pair(os, p.0, p.1) && p != (c, u) {
                            let k0 = choose|k0: int|
                                0 <= k0 < os.len() && os[k0].0 as int == p.0 && os[k0].1 as int
                                    == p.1;
                            assert(k0 != i as int);
                            if k0 < i as int {
                                assert(es[k0] == os[k0]);
                                assert(has_pair(es, p.0, p.1));
                            } else {
                                assert(es[k0 - 1] == os[k0]);
                                assert(has_pair(es, p.0, p.1));
                            }
                        }
                    }
                    assert(self@ =~= orig@.remove((c, u)));
                }
                return ;
            }
            i = i + 1;
        }
        proof {
            assert(!has_pair(self.entries@, community_id as int, user_id as int));
            assert(self@ =~= orig@.remove((community_id as int, user_id as int)));
        }
    }

    /// Snapshot of the identities present in the community, each exactly
    /// once; an unknown community yields the empty list, never an error.
    pub fn list(&self, community_id: i32) -> (r: Vec<i32>)
        requires
            self.inv(),
        ensures
            forall|j: int, k: int| 0 <= j < k < r@.len() ==> r@[j] != r@[k],
            forall|j: int|
                0 <= j < r@.len() ==> self@.contains((community_id as int, r@[j] as int)),
            forall|u: int| self@.contains((community_id as int, u)) ==> r@.contains(u as i32),
    {
        let n = self.entries.len();
        let mut r: Vec<i32> = Vec::new();
        let mut i: usize = 0;
        while i < n
            invariant
                n == self.entries@.len(),
                0 <= i <= n,
                self.inv(),
                forall|j: int, k: int| 0 <= j < k < r@.len() ==> r@[j] != r@[k],
                forall|j: int|
                    0 <= j < r@.len() ==> exists|m: int|
                        0 <= m < i && self.entries@[m] == (community_id, #[trigger] r@[j]),
                forall|m: int|
                    0 <= m < i && (#[trigger] self.entries@[m]).0 == community_id ==> r@.contains(
                        self.entries@[m].1,
                    ),
            decreases n - i,
        {
            if self.entries[i].0 == community_id {
                let ghost prev = r@;
                let v = self.entries[i].1;
                proof {
                    let es = self.entries@;
                    assert(!prev.contains(v)) by {
                        if prev.contains(v) {
                            let j = choose|j: int| 0 <= j < prev.len() && prev[j] == v;
                            let m = choose|m: int| 0 <= m < i && es[m] == (community_id, prev[j]);
                            assert(es[m] == es[i as int]);
                            assert(es[m] != es[i as int]);
                        }
                    }
                }
                r.push(v);
                proof {
                    let es = self.entries@;
                    assert forall|j: int, k: int| 0 <= j < k < r@.len() implies r@[j] != r@[k] by {
                        if k == r@.len() - 1 {
                            if r@[j] == v {
                                assert(prev[j] == v);
                                assert(prev.contains(v));
                            }
                        } else {
                            assert(prev[j] != prev[k]);
                        }
                    }
                    assert forall|j: int| 0 <= j < r@.len() implies exists|m: int|
                        0 <= m < i + 1 && es[m] == (community_id, #[trigger] r@[j]) by {
                        if j < r@.len() - 1 {
                            assert(r@[j] == prev[j]);
                        } else {
                            assert(es[i as int] == (community_id, r@[j]));
                        }
                    }
                    assert forall|m: int|
                        0 <= m < i + 1 && (#[trigger] es[m]).0 == community_id implies r@.contains(
                            es[m].1,
                        ) by {
                        if m < i {
                            let j = choose|j: int| 0 <= j < prev.len() && prev[j] == es[m].1;
                            assert(r@[j] == es[m].1);
                        } else {
                            assert(r@[r@.len() - 1] == es[m].1);
                        }
                    }
                }
            }
            i = i + 1;
        }
        proof {
            let es = self.entries@;
            assert forall|j: int| 0 <= j < r@.len() implies self@.contains(
                (community_id as int, r@[j] as int),
            ) by {
                let m = choose|m: int| 0 <= m < n && es[m] == (community_id, r@[j]);
                assert(es[m].0 as int == community_id as int && es[m].1 as int == r@[j] as int);
                assert(has_pair(es, community_id as int, r@[j] as int));
            }
            assert forall|u: int| self@.contains((community_id as int, u)) implies r@.contains(
                u as i32,
            ) by {
                assert(has_pair(es, community_id as int, u));
                let m = choose|m: int|
                    0 <= m < es.len() && es[m].0 as int == community_id as int && es[m].1 as int
                        == u;
                assert(es[m].0 == community_id);
                assert(r@.contains(es[m].1));
                assert(es[m].1 == u as i32);
            }
        }
        r
    }
}

impl PresenceTable {
    /// Every recorded pair lies within the id ranges.
    pub proof fn lemma_ranged(self)
        ensures
            forall|p: (int, int)|
                self@.contains(p) ==> i32::MIN <= p.0 <= i32::MAX && i32::MIN <= p.1 <= i32::MAX,
    {
        assert forall|p: (int, int)| self@.contains(p) implies i32::MIN <= p.0 <= i32::MAX
            && i32::MIN <= p.1 <= i32::MAX by {
            assert(has_pair(self.entries@, p.0, p.1));
            let i = choose|i: int|
                0 <= i < self.entries@.len() && self.entries@[i].0 as int == p.0
                    && self.entries@[i].1 as int == p.1;
        }
    }
}

/// Presence insertion is idempotent: recording a presence pair that is
/// already recorded yields the very same set, so an identity is listed at
/// most once however often it joins.
pub proof fn lemma_presence_add_idempotent(p: Set<(int, int)>, c: int, u: int)
    ensures
        p.insert((c, u)).insert((c, u)) == p.insert((c, u)),
{
    assert(p.insert((c, u)).insert((c, u)) =~= p.insert((c, u)));
}

} // verus!
