//! The session table: one record per connected client, keyed by the client's
//! source address.
//!
//! An address is carried as a single integer (the socket layer packs the
//! IPv4 address and port into it); time is carried as milliseconds on the
//! host's monotonic clock.  The table pairs a hash map with the insertion
//! order of the live addresses, so that a sweep visits sessions in a
//! deterministic order.

use vstd::prelude::*;
use std::collections::HashMap;
use crate::packet::Key;

verus! {

broadcast use vstd::std_specs::hash::group_hash_axioms;

/// Per-client state on the server.
#[derive(Clone, Copy, Debug)]
pub struct ConnectedClient {
    /// The session identity: the client's packed source address.
    pub addr: u64,
    /// The session key derived during the handshake.
    pub key: Key,
    /// When the last successfully decrypted message arrived (milliseconds).
    pub last_seen: u64,
    /// The idle budget: exceeding it marks the session expired.
    pub timeout_millis: u64,
    /// Whether the credential check has succeeded for this session.
    pub authenticated: bool,
}

impl ConnectedClient {
    /// A fresh, not yet authenticated session.
    pub fn new(key: Key, addr: u64, timeout_millis: u64, now: u64) -> (r: Self)
        ensures
            r == (ConnectedClient {
                addr,
                key,
                last_seen: now,
                timeout_millis,
                authenticated: false,
            }),
    {
        ConnectedClient { addr, key, last_seen: now, timeout_millis, authenticated: false }
    }

    /// The session has been idle beyond its budget.
    pub open spec fn spec_expired(&self, now: u64) -> bool {
        now > self.last_seen && now - self.last_seen > self.timeout_millis
    }

    /// The session has been idle beyond its budget.
    pub fn is_expired(&self, now: u64) -> (r: bool)
        ensures
            r == self.spec_expired(now),
    {
        now > self.last_seen && now - self.last_seen > self.timeout_millis
    }
}

/// `c` seen again at `now`: `last_seen` only ever moves forward.
pub open spec fn refreshed(c: ConnectedClient, now: u64) -> ConnectedClient {
    if now > c.last_seen {
        ConnectedClient { last_seen: now, ..c }
    } else {
        c
    }
}

/// `last_seen` is monotonically non-decreasing for the lifetime of a
/// session: seeing the client again only ever moves it forward, whatever the
/// clock reports.
pub proof fn lemma_last_seen_monotonic(c: ConnectedClient, now: u64)
    ensures
        refreshed(c, now).last_seen >= c.last_seen,
{
}

/// `c` after its credential was accepted.
pub open spec fn with_auth(c: ConnectedClient) -> ConnectedClient {
    ConnectedClient { authenticated: true, ..c }
}

/// The table after `a` was seen at `now`: its record refreshed, everything
/// else untouched; the table itself when `a` has no session.
pub open spec fn refresh_spec(
    t: Map<u64, ConnectedClient>,
    a: u64,
    now: u64,
) -> Map<u64, ConnectedClient> {
    if t.contains_key(a) {
        t.insert(a, refreshed(t[a], now))
    } else {
        t
    }
}

/// A session exists for `a` in `t` and has completed authentication.
pub open spec fn authenticated_in(t: Map<u64, ConnectedClient>, a: u64) -> bool {
    t.contains_key(a) && t[a].authenticated
}

/// `s` with its first occurrence of `a` taken out; `s` itself if absent.
pub open spec fn without_first(s: Seq<u64>, a: u64) -> Seq<u64>
    decreases s.len(),
{
    if s.len() == 0 {
        seq![]
    } else if s[0] == a {
        s.skip(1)
    } else {
        seq![s[0]] + without_first(s.skip(1), a)
    }
}

/// Where `a` first occurs at `i`, taking it out splices around `i`.
proof fn lemma_without_first_at(s: Seq<u64>, a: u64, i: int)
    requires
        0 <= i < s.len(),
        s[i] == a,
        forall|j: int| 0 <= j < i ==> s[j] != a,
    ensures
        without_first(s, a) == s.subrange(0, i) + s.skip(i + 1),
    decreases i,
{
    if i == 0 {
        assert(without_first(s, a) =~= s.subrange(0, 0) + s.skip(1));
    } else {
        lemma_without_first_at(s.skip(1), a, i - 1);
        assert(s.skip(1).subrange(0, i - 1) =~= s.subrange(1, i));
        assert(s.skip(1).skip(i) =~= s.skip(i + 1));
        assert(seq![s[0]] + (s.subrange(1, i) + s.skip(i + 1)) =~= s.subrange(0, i) + s.skip(
            i + 1,
        ));
    }
}

/// Where `a` does not occur, taking it out changes nothing.
proof fn lemma_without_first_absent(s: Seq<u64>, a: u64)
    requires
        forall|j: int| 0 <= j < s.len() ==> s[j] != a,
    ensures
        without_first(s, a) == s,
    decreases s.len(),
{
    if s.len() == 0 {
        assert(without_first(s, a) =~= s);
    } else {
        lemma_without_first_absent(s.skip(1), a);
        assert(seq![s[0]] + s.skip(1) =~= s);
    }
}

/// The mapping from client source address to session record.
pub struct SessionTable {
    map: HashMap<u64, ConnectedClient>,
    order: Vec<u64>,
}

impl SessionTable {
    /// The sessions as a mathematical map.
    pub closed spec fn sessions(&self) -> Map<u64, ConnectedClient> {
        self.map@
    }

    /// The live addresses in insertion order.
    pub closed spec fn spec_order(&self) -> Seq<u64> {
        self.order@
    }

    /// The table's invariant: the order list holds each live address exactly
    /// once, and every record sits at the key naming its own address.
    pub open spec fn wf(&self) -> bool {
        &&& self.sessions().dom().finite()
        &&& self.spec_order().no_duplicates()
        &&& self.spec_order().to_set() == self.sessions().dom()
        &&& forall|a: u64| #[trigger]
            self.sessions().contains_key(a) ==> self.sessions()[a].addr == a
    }

    /// An empty table.
    pub fn new() -> (r: Self)
        ensures
            r.wf(),
            r.sessions() == Map::<u64, ConnectedClient>::empty(),
            r.spec_order() == Seq::<u64>::empty(),
    {
        let r = SessionTable { map: HashMap::new(), order: Vec::new() };
        proof {
            assert(r.spec_order().to_set() =~= r.sessions().dom());
        }
        r
    }

    /// How many sessions are live.
    pub fn len(&self) -> (r: usize)
        ensures
            r == self.sessions().len(),
    {
        self.map.len()
    }

    /// Whether a session exists for `addr`.
    pub fn contains(&self, addr: u64) -> (r: bool)
        ensures
            r == self.sessions().contains_key(addr),
    {
        self.map.contains_key(&addr)
    }

    /// The session for `addr`, if any.
    pub fn get(&self, addr: u64) -> (r: Option<ConnectedClient>)
        ensures
            match r {
                Some(c) => self.sessions().contains_key(addr) && c == self.sessions()[addr],
                None => !self.sessions().contains_key(addr),
            },
    {
        match self.map.get(&addr) {
            Some(c) => Some(*c),
            None => None,
        }
    }

    /// Create or replace the session for `c.addr`.
    pub fn insert(&mut self, c: ConnectedClient)
        requires
            old(self).wf(),
        ensures
            final(self).wf(),
            final(self).sessions() == old(self).sessions().insert(c.addr, c),
            final(self).spec_order() == if old(self).sessions().contains_key(c.addr) {
                old(self).spec_order()
            } else {
                old(self).spec_order().push(c.addr)
            },
    {
        let had = self.map.contains_key(&c.addr);
        self.map.insert(c.addr, c);
        if !had {
            proof {
                assert(!old(self).spec_order().to_set().contains(c.addr));
                assert(!old(self).spec_order().contains(c.addr));
            }
            self.order.push(c.addr);
            proof {
                let o = old(self).spec_order();
                let n = self.order@;
                assert forall|i: int, j: int| 0 <= i < j < n.len() implies n[i] != n[j] by {
                    if j < o.len() {
                    } else {
                        assert(n[j] == c.addr);
                        assert(o[i] == n[i]);
                        assert(!o.contains(c.addr));
                    }
                }
                assert forall|a: u64| #[trigger] n.to_set().contains(a) implies self.map@
                    .dom().contains(a) by {
                    let i = choose|i: int| 0 <= i < n.len() && n[i] == a;
                    if i < o.len() {
                        assert(o.contains(a));
                        assert(o.to_set().contains(a));
                    } else {
                        assert(a == c.addr);
                    }
                }
                assert forall|a: u64| #[trigger] self.map@.dom().contains(a) implies n.to_set()
                    .contains(a) by {
                    if a == c.addr {
                        assert(n[n.len() - 1] == a);
                        assert(n.contains(a));
                    } else {
                        assert(o.to_set().contains(a));
                        let i = choose|i: int| 0 <= i < o.len() && o[i] == a;
                        assert(n[i] == a);
                        assert(n.contains(a));
                    }
                }
                assert(n.to_set() =~= self.map@.dom());
            }
        } else {
            proof {
                assert(self.order@.to_set() =~= self.map@.dom());
            }
        }
    }

    /// Remove the session for `addr`, if any.
    pub fn remove(&mut self, addr: u64)
        requires
            old(self).wf(),
        ensures
            final(self).wf(),
            final(self).sessions() == old(self).sessions().remove(addr),
            final(self).spec_order() == without_first(old(self).spec_order(), addr),
    {
        self.map.remove(&addr);
        let n = self.order.len();
        let mut i: usize = 0;
        while i < n
            invariant
                old(self).wf(),
                self.order@ == old(self).spec_order(),
                self.map@ == old(self).sessions().remove(addr),
                n == self.order@.len(),
                i <= n,
                forall|j: int| 0 <= j < i ==> self.order@[j] != addr,
            decreases n - i,
        {
            if self.order[i] == addr {
                let ghost o = self.order@;
                self.order.remove(i);
                proof {
                    lemma_without_first_at(o, addr, i as int);
                    assert(self.order@ =~= o.subrange(0, i as int) + o.skip(i as int + 1));
                    let m = self.order@;
                    // each new index maps to an old index other than i
                    assert forall|p: int, q: int| 0 <= p < q < m.len() implies m[p] != m[q] by {
                        let p0 = if p < i as int { p } else { p + 1 };
                        let q0 = if q < i as int { q } else { q + 1 };
                        assert(m[p] == o[p0] && m[q] == o[q0]);
                    }
                    assert forall|a: u64| #[trigger] m.to_set().contains(a) implies self.map@
                        .dom().contains(a) by {
                        let p = choose|p: int| 0 <= p < m.len() && m[p] == a;
                        let p0 = if p < i as int { p } else { p + 1 };
                        assert(o[p0] == a);
                        assert(o.to_set().contains(a));
                        assert(a != addr) by {
                            if a == addr {
                                assert(o[i as int] == addr);
                                assert(p0 != i as int);
                            }
                        }
                    }
                    assert forall|a: u64| #[trigger] self.map@.dom().contains(a) implies m
                        .to_set().contains(a) by {
                        assert(o.to_set().contains(a));
                        let p0 = choose|p0: int| 0 <= p0 < o.len() && o[p0] == a;
                        assert(a != addr);
                        assert(p0 != i as int);
                        let p = if p0 < i as int { p0 } else { p0 - 1 };
                        assert(m[p] == a);
                        assert(m.contains(a));
                    }
                    assert(m.to_set() =~= self.map@.dom());
                }
                return ;
            }
            i += 1;
        }
        proof {
            lemma_without_first_absent(old(self).spec_order(), addr);
            assert(!old(self).spec_order().to_set().contains(addr));
            assert(self.order@.to_set() =~= self.map@.dom());
        }
    }

    /// Move `addr`'s `last_seen` forward to `now`; nothing else changes.
    pub fn refresh(&mut self, addr: u64, now: u64)
        requires
            old(self).wf(),
        ensures
            final(self).wf(),
            final(self).spec_order() == old(self).spec_order(),
            final(self).sessions() == refresh_spec(old(self).sessions(), addr, now),
    {
        let current = match self.map.get(&addr) {
            Some(c) => Some(*c),
            None => None,
        };
        match current {
            Some(c) => {
                let updated = if now > c.last_seen {
                    ConnectedClient { last_seen: now, ..c }
                } else {
                    c
                };
                self.map.insert(addr, updated);
                proof {
                    assert(self.map@.dom() =~= old(self).sessions().dom());
                    assert(self.order@.to_set() =~= self.map@.dom());
                }
            },
            None => {},
        }
    }

    /// Mark `addr`'s session authenticated; nothing else changes.
    pub fn set_authenticated(&mut self, addr: u64)
        requires
            old(self).wf(),
        ensures
            final(self).wf(),
            final(self).spec_order() == old(self).spec_order(),
            final(self).sessions() == if old(self).sessions().contains_key(addr) {
                old(self).sessions().insert(addr, with_auth(old(self).sessions()[addr]))
            } else {
                old(self).sessions()
            },
    {
        let current = match self.map.get(&addr) {
            Some(c) => Some(*c),
            None => None,
        };
        match current {
            Some(c) => {
                let updated = ConnectedClient {
                    addr: c.addr,
                    key: c.key,
                    last_seen: c.last_seen,
                    timeout_millis: c.timeout_millis,
                    authenticated: true,
                };
                self.map.insert(addr, updated);
                proof {
                    assert(self.map@.dom() =~= old(self).sessions().dom());
                    assert(self.order@.to_set() =~= self.map@.dom());
                }
            },
            None => {},
        }
    }
}

impl SessionTable {
    /// Remove every session that has been idle beyond its budget, and hand
    /// back each evicted address with its session key, in table order.
    ///
    /// Exactly the expired sessions leave: a session survives the sweep if
    /// and only if it was live and within its idle budget, and it survives
    /// unchanged.
    pub fn sweep(&mut self, now: u64) -> (evicted: Vec<(u64, Key)>)
        requires
            old(self).wf(),
        ensures
            final(self).wf(),
            forall|a: u64| #[trigger]
                final(self).sessions().contains_key(a) <==> (old(self).sessions().contains_key(a)
                    && !old(self).sessions()[a].spec_expired(now)),
            forall|a: u64| #[trigger]
                final(self).sessions().contains_key(a) ==> final(self).sessions()[a] == old(
                    self,
                ).sessions()[a],
            forall|idx: int|
                0 <= idx < evicted@.len() ==> {
                    let (a, k) = #[trigger] evicted@[idx];
                    &&& old(self).sessions().contains_key(a)
                    &&& old(self).sessions()[a].spec_expired(now)
                    &&& k == old(self).sessions()[a].key
                },
            forall|a: u64| #[trigger]
                old(self).sessions().contains_key(a) && old(self).sessions()[a].spec_expired(now)
                    ==> exists|idx: int| 0 <= idx < evicted@.len() && (#[trigger] evicted@[idx]).0
                    == a,
    {
        let n = self.order.len();
        let mut expired: Vec<(u64, Key)> = Vec::new();
        let mut i: usize = 0;
        while i < n
            invariant
                old(self).wf(),
                self.order@ == old(self).spec_order(),
                self.map@ == old(self).sessions(),
                n == self.order@.len(),
                i <= n,
                forall|idx: int|
                    0 <= idx < expired@.len() ==> {
                        let (a, k) = #[trigger] expired@[idx];
                        &&& old(self).sessions().contains_key(a)
                        &&& old(self).sessions()[a].spec_expired(now)
                        &&& k == old(self).sessions()[a].key
                    },
                forall|j: int|
                    0 <= j < i && old(self).sessions().contains_key(#[trigger] self.order@[j])
                        && old(self).sessions()[self.order@[j]].spec_expired(now)
                        ==> exists|idx: int|
                        0 <= idx < expired@.len() && (#[trigger] expired@[idx]).0
                            == self.order@[j],
            decreases n - i,
        {
            let a = self.order[i];
            match self.get(a) {
                Some(c) => {
                    if c.is_expired(now) {
                        let ghost before = expired@;
                        expired.push((a, c.key));
                        proof {
                            let cur = expired@;
                            assert forall|j: int|
                                0 <= j < i + 1 && old(self).sessions().contains_key(
                                    #[trigger] self.order@[j],
                                ) && old(self).sessions()[self.order@[j]].spec_expired(now)
                                implies exists|idx: int|
                                0 <= idx < cur.len() && (#[trigger] cur[idx]).0
                                    == self.order@[j] by {
                                if j == i {
                                    assert(cur[cur.len() - 1].0 == self.order@[j]);
                                } else {
                                    let idx = choose|idx: int|
                                        0 <= idx < before.len() && (#[trigger] before[idx]).0
                                            == self.order@[j];
                                    assert(cur[idx].0 == self.order@[j]);
                                }
                            }
                        }
                    }
                },
                None => {},
            }
            i += 1;
        }
        let m = expired.len();
        let mut k: usize = 0;
        while k < m
            invariant
                self.wf(),
                old(self).wf(),
                m == expired@.len(),
                k <= m,
                forall|idx: int|
                    0 <= idx < expired@.len() ==> {
                        let (a, key) = #[trigger] expired@[idx];
                        &&& old(self).sessions().contains_key(a)
                        &&& old(self).sessions()[a].spec_expired(now)
                        &&& key == old(self).sessions()[a].key
                    },
                forall|a: u64| #[trigger]
                    old(self).sessions().contains_key(a) && old(self).sessions()[a].spec_expired(
                        now,
                    ) ==> exists|idx: int|
                        0 <= idx < expired@.len() && (#[trigger] expired@[idx]).0 == a,
                forall|a: u64| #[trigger]
                    self.sessions().contains_key(a) <==> (old(self).sessions().contains_key(a) && !(
                    exists|idx: int| 0 <= idx < k && (#[trigger] expired@[idx]).0 == a)),
                forall|a: u64| #[trigger]
                    self.sessions().contains_key(a) ==> self.sessions()[a] == old(
                        self,
                    ).sessions()[a],
            decreases m - k,
        {
            let (a, _) = expired[k];
            self.remove(a);
            k += 1;
        }
        expired
    }
}

/// Disconnect idempotence: handling a second `Disconnect` from the same
/// address leaves exactly the state the first one left — removing an address
/// changes nothing once it is gone, on the session map and on the order list
/// alike.
pub proof fn lemma_disconnect_idempotent(
    sessions: Map<u64, ConnectedClient>,
    order: Seq<u64>,
    a: u64,
)
    requires
        order.no_duplicates(),
    ensures
        sessions.remove(a).remove(a) == sessions.remove(a),
        without_first(without_first(order, a), a) == without_first(order, a),
{
    assert(sessions.remove(a).remove(a) =~= sessions.remove(a));
    if order.contains(a) {
        let i = choose|i: int| 0 <= i < order.len() && order[i] == a;
        assert forall|j: int| 0 <= j < i implies order[j] != a by {
            assert(order[j] != order[i]);
        }
        lemma_without_first_at(order, a, i);
        let w = order.subrange(0, i) + order.skip(i + 1);
        assert forall|j: int| 0 <= j < w.len() implies w[j] != a by {
            let j0 = if j < i {
                j
            } else {
                j + 1
            };
            assert(w[j] == order[j0]);
            assert(order[j0] != order[i]);
        }
        lemma_without_first_absent(w, a);
    } else {
        assert(forall|j: int| 0 <= j < order.len() ==> order[j] != a);
        lemma_without_first_absent(order, a);
    }
}

/// At most one session per source address: any two live sessions bearing the
/// same address sit at the same key, so the set of sessions for an address
/// never holds more than one record.
pub proof fn lemma_at_most_one_session_per_addr(t: &SessionTable, a: u64)
    requires
        t.wf(),
    ensures
        forall|k1: u64, k2: u64|
            t.sessions().contains_key(k1) && t.sessions().contains_key(k2) && t.sessions()[k1].addr
                == a && t.sessions()[k2].addr == a ==> k1 == k2,
{
}

} // verus!
