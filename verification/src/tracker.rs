//! Per-connection room bookkeeping: which community rooms each connection
//! has joined, kept so that a disconnect can clean every one of them up.

use vstd::prelude::*;

verus! {

/// Whether some entry is the (connection, community) pair.
pub closed spec fn has_join(es: Seq<(u64, i32)>, s: int, c: int) -> bool {
    exists|i: int| 0 <= i < es.len() && es[i].0 as int == s && es[i].1 as int == c
}

/// Set of (connection, community) pairs meaning "this connection has joined
/// this community's room and has not left it since".
///
/// Stored as a duplicate-free list of pairs; its view is the set of pairs.
pub struct RoomTracker {
    entries: Vec<(u64, i32)>,
}

impl View for RoomTracker {
    type V = Set<(int, int)>;

    closed spec fn view(&self) -> Set<(int, int)> {
        Set::new(|p: (int, int)| has_join(self.entries@, p.0, p.1))
    }
}

impl RoomTracker {
    /// No pair occurs twice.
    pub closed spec fn inv(self) -> bool {
        forall|i: int, j: int|
            0 <= i < j < self.entries@.len() ==> self.entries@[i] != self.entries@[j]
    }

    /// An empty tracker: no connection is in any room.
    pub fn new() -> (r: RoomTracker)
        ensures
            r.inv(),
            r@ == Set::<(int, int)>::empty(),
    {
        let r = RoomTracker { entries: Vec::new() };
        proof {
            assert(r@ =~= Set::<(int, int)>::empty());
        }
        r
    }

    /// Record that the connection joined the community's room; recording a
    /// pair that is already recorded changes nothing.
    pub fn track(&mut self, socket_id: u64, community_id: i32)
        requires
            old(self).inv(),
        ensures
            final(self).inv(),
            final(self)@ == old(self)@.insert((socket_id as int, community_id as int)),
    {
        let n = self.entries.len();
        let mut i: usize = 0;
        while i < n
            invariant
                n == self.entries@.len(),
                0 <= i <= n,
                *self == *old(self),
                old(self).inv(),
                forall|j: int|
                    0 <= j < i ==> !(self.entries@[j].0 == socket_id && self.entries@[j].1
                        == community_id),
            decreases n - i,
        {
            if self.entries[i].0 == socket_id && self.entries[i].1 == community_id {
                proof {
                    assert(has_join(self.entries@, socket_id as int, community_id as int));
                    assert(self@ =~= old(self)@.insert((socket_id as int, community_id as int)));
                }
                return ;
            }
            i = i + 1;
        }
        let ghost os = self.entries@;
        self.entries.push((socket_id, community_id));
        proof {
            let s = socket_id as int;
            let c = community_id as int;
            let es = self.entries@;
            assert(es == os.push((socket_id, community_id)));
            assert(!has_join(os, s, c));
            assert forall|i2: int, j: int| 0 <= i2 < j < es.len() implies es[i2] != es[j] by {
                if j < es.len() - 1 {
                    assert(os[i2] != os[j]);
                } else {
                    assert(es[i2] == os[i2]);
                    if es[i2] == (socket_id, community_id) {
                        assert(has_join(os, s, c));
                    }
                }
            }
            assert forall|p: (int, int)| #![auto] self@.contains(p) == old(self)@.insert(
                (s, c),
            ).contains(p) by {
                if has_join(es, p.0, p.1) {
                    let k = choose|k: int|
                        0 <= k < es.len() && es[k].0 as int == p.0 && es[k].1 as int == p.1;
                    if k < os.len() {
                        assert(os[k] == es[k]);
                        assert(has_join(os, p.0, p.1));
                    } else {
                        assert(p == (s, c));
                    }
                }
                if has_join(os, p.0, p.1) {
                    let k = choose|k: int|
                        0 <= k < os.len() && os[k].0 as int == p.0 && os[k].1 as int == p.1;
                    assert(es[k] == os[k]);
                    assert(has_join(es, p.0, p.1));
                }
                if p == (s, c) {
                    assert(es[es.len() - 1] == (socket_id, community_id));
                    assert(has_join(es, p.0, p.1));
                }
            }
            assert(self@ =~= old(self)@.insert((s, c)));
        }
    }

    /// Drop the record that the connection is in the community's room;
    /// dropping an absent pair is a no-op.
    pub fn untrack(&mut self, socket_id: u64, community_id: i32)
        requires
            old(self).inv(),
        ensures
            final(self).inv(),
            final(self)@ == old(self)@.remove((socket_id as int, community_id as int)),
    {
        let ghost orig = *old(self);
        let n = self.entries.len();
        let mut i: usize = 0;
        while i < n
            invariant
                n == self.entries@.len(),
                0 <= i <= n,
                *self == orig,
                orig == *old(self),
                orig.inv(),
                forall|j: int|
                    0 <= j < i ==> !(self.entries@[j].0 == socket_id && self.entries@[j].1
                        == community_id),
            decreases n - i,
        {
            if self.entries[i].0 == socket_id && self.entries[i].1 == community_id {
                let ghost os = orig.entries@;
                self.entries.remove(i);
                proof {
                    let s = socket_id as int;
                    let c = community_id as int;
                    let es = self.entries@;
                    assert(es == os.remove(i as int));
                    assert(os[i as int] == (socket_id, community_id));
                    assert forall|k: int, l: int| 0 <= k < l < es.len() implies es[k] != es[l] by {
                        let k0: int = if k < i as int {
                            k
                        } else {
                            k + 1
                        };
                        let l0: int = if l < i as int {
                            l
                        } else {
                            l + 1
                        };
                        assert(es[k] == os[k0] && es[l] == os[l0]);
                    }
                    assert forall|p: (int, int)| #![auto] self@.contains(p) == orig@.remove(
                        (s, c),
                    ).contains(p) by {
                        if has_join(es, p.0, p.1) {
                            let k = choose|k: int|
                                0 <= k < es.len() && es[k].0 as int == p.0 && es[k].1 as int
                                    == p.1;
                            let k0: int = if k < i as int {
                                k
                            } else {
                                k + 1
                            };
                            assert(es[k] == os[k0]);
                            assert(has_join(os, p.0, p.1));
                            if p == (s, c) {
                                assert(os[k0] == os[i as int]);
                                if k0 < i as int {
                                    assert(os[k0] != os[i as int]);
                                } else if k0 > i as int {
                                    assert(os[i as int] != os[k0]);
                                }
                            }
                        }
                        if has_join(os, p.0, p.1) && p != (s, c) {
                            let k0 = choose|k0: int|
                                0 <= k0 < os.len() && os[k0].0 as int == p.0 && os[k0].1 as int
                                    == p.1;
                            assert(k0 != i as int);
                            if k0 < i as int {
                                assert(es[k0] == os[k0]);
                                assert(has_join(es, p.0, p.1));
                            } else {
                                assert(es[k0 - 1] == os[k0]);
                                assert(has_join(es, p.0, p.1));
                            }
                        }
                    }
                    assert(self@ =~= orig@.remove((s, c)));
                }
                return ;
            }
            i = i + 1;
        }
        proof {
            assert(!has_join(self.entries@, socket_id as int, community_id as int));
            assert(self@ =~= orig@.remove((socket_id as int, community_id as int)));
        }
    }

    /// The communities the connection is currently in, each exactly once.
    pub fn joined(&self, socket_id: u64) -> (r: Vec<i32>)
        requires
            self.inv(),
        ensures
            forall|j: int, k: int| 0 <= j < k < r@.len() ==> r@[j] != r@[k],
            forall|j: int| 0 <= j < r@.len() ==> self@.contains((socket_id as int, r@[j] as int)),
            forall|c: int| self@.contains((socket_id as int, c)) ==> r@.contains(c as i32),
    {
        let n = self.entries.len();
        let mut r: Vec<i32> = Vec::new();
        let mut i: usize = 0;
        while i < n
            invariant
                n == self.entries@.len(),
                0 <= i <= n,
                self.inv(),
                forall|j: int, k: int| 0 <= j < k < r@.len() ==> r@[j] != r@[k],
                forall|j: int|
                    0 <= j < r@.len() ==> exists|m: int|
                        0 <= m < i && self.entries@[m] == (socket_id, #[trigger] r@[j]),
                forall|m: int|
                    0 <= m < i && (#[trigger] self.entries@[m]).0 == socket_id ==> r@.contains(
                        self.entries@[m].1,
                    ),
            decreases n - i,
        {
            if self.entries[i].0 == socket_id {
                let ghost prev = r@;
                let v = self.entries[i].1;
                proof {
                    let es = self.entries@;
                    assert(!prev.contains(v)) by {
                        if prev.contains(v) {
                            let j = choose|j: int| 0 <= j < prev.len() && prev[j] == v;
                            let m = choose|m: int| 0 <= m < i && es[m] == (socket_id, prev[j]);
                            assert(es[m] == es[i as int]);
                            assert(es[m] != es[i as int]);
                        }
                    }
                }
                r.push(v);
                proof {
                    let es = self.entries@;
                    assert forall|j: int, k: int| 0 <= j < k < r@.len() implies r@[j] != r@[k] by {
                        if k == r@.len() - 1 {
                            if r@[j] == v {
                                assert(prev[j] == v);
                                assert(prev.contains(v));
                            }
                        } else {
                            assert(prev[j] != prev[k]);
                        }
                    }
                    assert forall|j: int| 0 <= j < r@.len() implies exists|m: int|
                        0 <= m < i + 1 && es[m] == (socket_id, #[trigger] r@[j]) by {
                        if j < r@.len() - 1 {
                            assert(r@[j] == prev[j]);
                        } else {
                            assert(es[i as int] == (socket_id, r@[j]));
                        }
                    }
                    assert forall|m: int|
                        0 <= m < i + 1 && (#[trigger] es[m]).0 == socket_id implies r@.contains(
                            es[m].1,
                        ) by {
                        if m < i {
                            let j = choose|j: int| 0 <= j < prev.len() && prev[j] == es[m].1;
                            assert(r@[j] == es[m].1);
                        } else {
                            assert(r@[r@.len() - 1] == es[m].1);
                        }
                    }
                }
            }
            i = i + 1;
        }
        proof {
            let es = self.entries@;
            assert forall|j: int| 0 <= j < r@.len() implies self@.contains(
                (socket_id as int, r@[j] as int),
            ) by {
                let m = choose|m: int| 0 <= m < n && es[m] == (socket_id, r@[j]);
                assert(es[m].0 as int == socket_id as int && es[m].1 as int == r@[j] as int);
                assert(has_join(es, socket_id as int, r@[j] as int));
            }
            assert forall|c: int| self@.contains((socket_id as int, c)) implies r@.contains(
                c as i32,
            ) by {
                assert(has_join(es, socket_id as int, c));
                let m = choose|m: int|
                    0 <= m < es.len() && es[m].0 as int == socket_id as int && es[m].1 as int == c;
                assert(es[m].0 == socket_id);
                assert(r@.contains(es[m].1));
                assert(es[m].1 == c as i32);
            }
        }
        r
    }

    /// Drop every room record of the connection.
    pub fn untrack_all(&mut self, socket_id: u64)
        requires
            old(self).inv(),
        ensures
            final(self).inv(),
            forall|p: (int, int)|
                final(self)@.contains(p) == (old(self)@.contains(p) && p.0 != socket_id as int),
    {
        let ghost orig = *old(self);
        let n = self.entries.len();
        let mut kept: Vec<(u64, i32)> = Vec::new();
        let mut i: usize = 0;
        while i < n
            invariant
                n == self.entries@.len(),
                0 <= i <= n,
                *self == orig,
                orig == *old(self),
                orig.inv(),
                forall|j: int, k: int| 0 <= j < k < kept@.len() ==> kept@[j] != kept@[k],
                forall|j: int|
                    0 <= j < kept@.len() ==> (#[trigger] kept@[j]).0 != socket_id && exists|m: int|
                        0 <= m < i && self.entries@[m] == kept@[j],
                forall|m: int|
                    0 <= m < i && (#[trigger] self.entries@[m]).0 != socket_id ==> kept@.contains(
                        self.entries@[m],
                    ),
            decreases n - i,
        {
            if self.entries[i].0 != socket_id {
                let ghost prev = kept@;
                let e = self.entries[i];
                proof {
                    let es = self.entries@;
                    assert(!prev.contains(e)) by {
                        if prev.contains(e) {
                            let j = choose|j: int| 0 <= j < prev.len() && prev[j] == e;
                            let m = choose|m: int| 0 <= m < i && es[m] == prev[j];
                            assert(es[m] == es[i as int]);
                            assert(es[m] != es[i as int]);
                        }
                    }
                }
                kept.push(e);
                proof {
                    let es = self.entries@;
                    assert forall|j: int, k: int|
                        0 <= j < k < kept@.len() implies kept@[j] != kept@[k] by {
                        if k == kept@.len() - 1 {
                            if kept@[j] == e {
                                assert(prev[j] == e);
                                assert(prev.contains(e));
                            }
                        } else {
                            assert(prev[j] != prev[k]);
                        }
                    }
                    assert forall|j: int|
                        0 <= j < kept@.len() implies (#[trigger] kept@[j]).0 != socket_id
                            && exists|m: int| 0 <= m < i + 1 && es[m] == kept@[j] by {
                        if j < kept@.len() - 1 {
                            assert(kept@[j] == prev[j]);
                        } else {
                            assert(es[i as int] == kept@[j]);
                        }
                    }
                    assert forall|m: int|
                        0 <= m < i + 1 && (#[trigger] es[m]).0 != socket_id implies kept@.contains(
                            es[m],
                        ) by {
                        if m < i {
                            let j = choose|j: int| 0 <= j < prev.len() && prev[j] == es[m];
                            assert(kept@[j] == es[m]);
                        } else {
                            assert(kept@[kept@.len() - 1] == es[m]);
                        }
                    }
                }
            }
            i = i + 1;
        }
        self.entries = kept;
        proof {
            let es = self.entries@;
            let os = orig.entries@;
            assert forall|p: (int, int)| #![auto] self@.contains(p) == (orig@.contains(p) && p.0
                != socket_id as int) by {
                if has_join(es, p.0, p.1) {
                    let k = choose|k: int|
                        0 <= k < es.len() && es[k].0 as int == p.0 && es[k].1 as int == p.1;
                    assert(es[k].0 != socket_id);
                    let m = choose|m: int| 0 <= m < n && os[m] == es[k];
                    assert(has_join(os, p.0, p.1));
                }
                if has_join(os, p.0, p.1) && p.0 != socket_id as int {
                    let m = choose|m: int|
                        0 <= m < os.len() && os[m].0 as int == p.0 && os[m].1 as int == p.1;
                    assert(os[m].0 != socket_id);
                    assert(es.contains(os[m]));
                    let k = choose|k: int| 0 <= k < es.len() && es[k] == os[m];
                    assert(has_join(es, p.0, p.1));
                }
            }
        }
    }
}

} // verus!
