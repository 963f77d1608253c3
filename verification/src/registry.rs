//! The connection registry: which authenticated identity owns each live
//! connection.

use vstd::prelude::*;

verus! {

/// Identity attached to a connection at authentication time.
#[derive(Debug, Clone)]
pub struct UserInfo {
    pub user_id: i32,
    pub username: String,
}

impl UserInfo {
    /// A copy that is equal to the original.
    pub fn duplicate(&self) -> (r: UserInfo)
        ensures
            r == *self,
    {
        UserInfo { user_id: self.user_id, username: self.username.clone() }
    }
}

/// Whether some entry carries the key.
pub closed spec fn has_key(es: Seq<(u64, UserInfo)>, s: int) -> bool {
    exists|i: int| 0 <= i < es.len() && es[i].0 == s
}

/// Index of the entry carrying the key (unique when keys are distinct).
pub closed spec fn key_index(es: Seq<(u64, UserInfo)>, s: int) -> int {
    choose|i: int| 0 <= i < es.len() && es[i].0 == s
}

/// No two entries carry the same key.
pub closed spec fn distinct_keys(es: Seq<(u64, UserInfo)>) -> bool {
    forall|i: int, j: int| 0 <= i < j < es.len() ==> es[i].0 != es[j].0
}

/// Map from connection handle to the identity that authenticated it.
///
/// Stored as an association list with distinct keys; its view is the map of
/// attached identities.
pub struct ConnectionRegistry {
    entries: Vec<(u64, UserInfo)>,
}

impl View for ConnectionRegistry {
    type V = Map<int, UserInfo>;

    closed spec fn view(&self) -> Map<int, UserInfo> {
        Map::new(
            |s: int| has_key(self.entries@, s),
            |s: int| self.entries@[key_index(self.entries@, s)].1,
        )
    }
}

impl ConnectionRegistry {
    /// Keys are distinct, so each connection has at most one identity.
    pub closed spec fn inv(self) -> bool {
        distinct_keys(self.entries@)
    }

    /// How the view reads off the entry list, at one key.
    proof fn lemma_view_char(self, s: int)
        ensures
            self@.contains_key(s) == has_key(self.entries@, s),
            has_key(self.entries@, s) ==> self@[s] == self.entries@[key_index(
                self.entries@,
                s,
            )].1,
    {
    }

    /// The entry at a position is the one its key selects.
    proof fn lemma_key_at(self, i: int)
        requires
            self.inv(),
            0 <= i < self.entries@.len(),
        ensures
            has_key(self.entries@, self.entries@[i].0 as int),
            key_index(self.entries@, self.entries@[i].0 as int) == i,
    {
        let es = self.entries@;
        let s = es[i].0 as int;
        assert(has_key(es, s));
        let k = key_index(es, s);
        if k != i {
            if k < i {
                assert(es[k].0 != es[i].0);
            } else {
                assert(es[i].0 != es[k].0);
            }
        }
    }

    /// An empty registry: no connection has an identity.
    pub fn new() -> (r: ConnectionRegistry)
        ensures
            r.inv(),
            r@ == Map::<int, UserInfo>::empty(),
    {
        let r = ConnectionRegistry { entries: Vec::new() };
        proof {
            assert(r@ =~= Map::<int, UserInfo>::empty());
        }
        r
    }

    /// Associate an identity with a connection, replacing any prior
    /// association for that connection.
    pub fn attach(&mut self, socket_id: u64, user: UserInfo)
        requires
            old(self).inv(),
        ensures
            final(self).inv(),
            final(self)@ == old(self)@.insert(socket_id as int, user),
    {
        self.forget(socket_id);
        let ghost mid = *self;
        self.entries.push((socket_id, user));
        proof {
            let sid = socket_id as int;
            let es = self.entries@;
            let ms = mid.entries@;
            assert(es == ms.push((socket_id, user)));
            assert(!has_key(ms, sid)) by {
                mid.lemma_view_char(sid);
            }
            assert forall|i: int, j: int| 0 <= i < j < es.len() implies es[i].0 != es[j].0 by {
                if j < es.len() - 1 {
                    assert(ms[i].0 != ms[j].0);
                } else {
                    assert(es[i] == ms[i]);
                    if es[i].0 == socket_id {
                        assert(has_key(ms, sid));
                    }
                }
            }
            assert forall|s: int| #![auto] self@.contains_key(s) == old(self)@.insert(
                sid,
                user,
            ).contains_key(s) by {
                self.lemma_view_char(s);
                mid.lemma_view_char(s);
                old(self).lemma_view_char(s);
                if has_key(es, s) {
                    let i = key_index(es, s);
                    if i < ms.len() {
                        assert(ms[i].0 == es[i].0);
                        assert(has_key(ms, s));
                    }
                }
                if has_key(ms, s) {
                    let i = key_index(ms, s);
                    assert(es[i].0 == ms[i].0);
                    assert(has_key(es, s));
                }
                if s == sid {
                    assert(es[es.len() - 1].0 == socket_id);
                    assert(has_key(es, s));
                }
            }
            assert forall|s: int| self@.contains_key(s) implies self@[s] == old(self)@.insert(
                sid,
                user,
            )[s] by {
                self.lemma_view_char(s);
                mid.lemma_view_char(s);
                old(self).lemma_view_char(s);
                let k = key_index(es, s);
                assert(0 <= k < es.len() && es[k].0 == s);
                if s == sid {
                    if k < ms.len() {
                        assert(ms[k].0 == es[k].0);
                        assert(has_key(ms, sid));
                    }
                    assert(k == es.len() - 1);
                    assert(self@[s] == user);
                } else {
                    assert(k < ms.len());
                    assert(ms[k].0 == es[k].0);
                    assert(has_key(ms, s));
                    mid.lemma_key_at(k);
                    assert(self@[s] == ms[k].1);
                    assert(mid@[s] == ms[k].1);
                    assert(mid@ == old(self)@.remove(sid));
                    assert(old(self)@.insert(sid, user)[s] == old(self)@[s]);
                }
            }
            assert(self@ =~= old(self)@.insert(sid, user));
        }
    }

    /// The identity attached to a connection, if any; absence is not an
    /// error.
    pub fn lookup(&self, socket_id: u64) -> (r: Option<UserInfo>)
        requires
            self.inv(),
        ensures
            match r {
                Some(u) => self@.contains_key(socket_id as int) && u == self@[socket_id as int],
                None => !self@.contains_key(socket_id as int),
            },
    {
        let n = self.entries.len();
        let mut i: usize = 0;
        while i < n
            invariant
                n == self.entries@.len(),
                0 <= i <= n,
                self.inv(),
                forall|j: int| 0 <= j < i ==> self.entries@[j].0 != socket_id,
            decreases n - i,
        {
            if self.entries[i].0 == socket_id {
                let u = self.entries[i].1.duplicate();
                proof {
                    self.lemma_key_at(i as int);
                    self.lemma_view_char(socket_id as int);
                }
                return Some(u);
            }
            i = i + 1;
        }
        proof {
            assert(!has_key(self.entries@, socket_id as int));
            self.lemma_view_char(socket_id as int);
        }
        None
    }

    /// Drop any association for the connection; a no-op when there is none.
    pub fn forget(&mut self, socket_id: u64)
        requires
            old(self).inv(),
        ensures
            final(self).inv(),
            final(self)@ == old(self)@.remove(socket_id as int),
    {
        let ghost orig = *old(self);
        let n = self.entries.len();
        let mut i: usize = 0;
        while i < n
            invariant
                n == self.entries@.len(),
                0 <= i <= n,
                *self == orig,
                orig == *old(self),
                orig.inv(),
                forall|j: int| 0 <= j < i ==> self.entries@[j].0 != socket_id,
            decreases n - i,
        {
            if self.entries[i].0 == socket_id {
                let ghost os = orig.entries@;
                self.entries.remove(i);
                proof {
                    let sid = socket_id as int;
                    let es = self.entries@;
                    assert(es == os.remove(i as int));
                    assert(os[i as int].0 == socket_id);
                    assert forall|k: int, l: int| 0 <= k < l < es.len() implies es[k].0
                        != es[l].0 by {
                        let k0: int = if k < i as int {
                            k
                        } else {
                            k + 1
                        };
                        let l0: int = if l < i as int {
                            l
                        } else {
                            l + 1
                        };
                        assert(es[k] == os[k0] && es[l] == os[l0]);
                    }
                    assert forall|s: int| #![auto] self@.contains_key(s) == orig@.remove(
                        sid,
                    ).contains_key(s) by {
                        self.lemma_view_char(s);
                        orig.lemma_view_char(s);
                        if has_key(es, s) {
                            let k = key_index(es, s);
                            let k0: int = if k < i as int {
                                k
                            } else {
                                k + 1
                            };
                            assert(es[k] == os[k0]);
                            assert(has_key(os, s));
                            if s == sid {
                                assert(os[k0].0 == os[i as int].0);
                                if k0 < i as int {
                                    assert(os[k0].0 != os[i as int].0);
                                } else if k0 > i as int {
                                    assert(os[i as int].0 != os[k0].0);
                                }
                            }
                        }
                        if has_key(os, s) && s != sid {
                            let k0 = key_index(os, s);
                            assert(0 <= k0 < os.len() && os[k0].0 == s);
                            assert(k0 != i as int);
                            if k0 < i as int {
                                assert(es[k0] == os[k0]);
                                assert(has_key(es, s));
                            } else {
                                assert(es[k0 - 1] == os[k0]);
                                assert(has_key(es, s));
                            }
                        }
                    }
                    assert forall|s: int| self@.contains_key(s) implies self@[s] == orig@.remove(
                        sid,
                    )[s] by {
                        self.lemma_view_char(s);
                        orig.lemma_view_char(s);
                        let k = key_index(es, s);
                        assert(0 <= k < es.len() && es[k].0 == s);
                        let k0: int = if k < i as int {
                            k
                        } else {
                            k + 1
                        };
                        assert(es[k] == os[k0]);
                        orig.lemma_key_at(k0);
                        assert(orig@[s] == os[k0].1);
                    }
                    assert(self@ =~= orig@.remove(sid));
                }
                return ;
            }
            i = i + 1;
        }
        proof {
            assert(!has_key(self.entries@, socket_id as int));
            self.lemma_view_char(socket_id as int);
            assert(self@ =~= orig@.remove(socket_id as int));
        }
    }
}

} // verus!
