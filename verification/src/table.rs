//! The authoritative in-memory lease table.
//!
//! The table owns every live lease, keyed by port.  Its mathematical image
//! is a finite map from port to [`LeaseData`]; every operation's contract is
//! stated over that map.  Callers hold exclusive (`&mut`) or shared (`&`)
//! access to the table, which serializes mutation exactly as the operations
//! require.

use vstd::prelude::*;
use crate::lease::{Lease, LeaseData, lease_expired, lease_renewed, lease_valid};
use crate::messages::LookupResponse;

verus! {

/// No two entries of the backing vector claim the same port.
pub open spec fn ports_distinct(s: Seq<Lease>) -> bool {
    forall|i: int, j: int| 0 <= i < j < s.len() ==> s[i].port != s[j].port
}

/// The finite map that a vector of leases stands for: later entries shadow
/// earlier ones, though a well-formed table never has two entries to a port.
pub open spec fn leases_map(s: Seq<Lease>) -> Map<u16, LeaseData>
    decreases s.len(),
{
    if s.len() == 0 {
        Map::empty()
    } else {
        leases_map(s.drop_last()).insert(s.last().port, s.last()@)
    }
}

/// A port is in the map exactly when some entry of the vector claims it.
pub proof fn lemma_leases_map_dom(s: Seq<Lease>)
    ensures
        forall|p: u16|
            #[trigger] leases_map(s).dom().contains(p) <==> exists|i: int|
                0 <= i < s.len() && s[i].port == p,
    decreases s.len(),
{
    if s.len() > 0 {
        let sub = s.drop_last();
        lemma_leases_map_dom(sub);
        assert forall|p: u16| #[trigger] leases_map(s).dom().contains(p) implies exists|i: int|
            0 <= i < s.len() && s[i].port == p by {
            if p == s.last().port {
                assert(s[s.len() - 1].port == p);
            } else {
                assert(leases_map(sub).dom().contains(p));
                let i = choose|i: int| 0 <= i < sub.len() && sub[i].port == p;
                assert(s[i].port == p);
            }
        }
        assert forall|p: u16|
            exists|i: int| 0 <= i < s.len() && s[i].port == p implies #[trigger] leases_map(
            s,
        ).dom().contains(p) by {
            let i = choose|i: int| 0 <= i < s.len() && s[i].port == p;
            if i < s.len() - 1 {
                assert(sub[i].port == p);
            }
        }
    }
}

/// With distinct ports, each entry of the vector is found unchanged in the
/// map under its own port.
pub proof fn lemma_leases_map_entries(s: Seq<Lease>)
    requires
        ports_distinct(s),
    ensures
        forall|i: int|
            0 <= i < s.len() ==> #[trigger] leases_map(s).contains_pair(s[i].port, s[i]@),
    decreases s.len(),
{
    if s.len() > 0 {
        let sub = s.drop_last();
        lemma_leases_map_entries(sub);
        assert forall|i: int| 0 <= i < s.len() implies #[trigger] leases_map(s).contains_pair(
            s[i].port,
            s[i]@,
        ) by {
            if i < s.len() - 1 {
                assert(sub[i] == s[i]);
                assert(leases_map(sub).contains_pair(s[i].port, s[i]@));
                assert(s[i].port != s.last().port);
            }
        }
    }
}

/// Appending an entry inserts it into the map.
pub proof fn lemma_leases_map_push(s: Seq<Lease>, l: Lease)
    ensures
        leases_map(s.push(l)) == leases_map(s).insert(l.port, l@),
{
    assert(s.push(l).drop_last() =~= s);
    assert(s.push(l).last() == l);
}

/// Removing the entry at `i` removes its port from the map.
pub proof fn lemma_leases_map_remove(s: Seq<Lease>, i: int)
    requires
        ports_distinct(s),
        0 <= i < s.len(),
    ensures
        leases_map(s.remove(i)) == leases_map(s).remove(s[i].port),
    decreases s.len(),
{
    let p = s[i].port;
    let sub = s.drop_last();
    if i == s.len() - 1 {
        assert(s.remove(i) =~= sub);
        lemma_leases_map_dom(sub);
        if leases_map(sub).dom().contains(p) {
            let j = choose|j: int| 0 <= j < sub.len() && sub[j].port == p;
            assert(s[j].port == s[i].port);
            assert(false);
        }
        assert(leases_map(sub).insert(p, s[i]@).remove(p) =~= leases_map(sub));
    } else {
        assert(s.remove(i).drop_last() =~= sub.remove(i));
        assert(s.remove(i).last() == s.last());
        lemma_leases_map_remove(sub, i);
        assert(sub[i] == s[i]);
        assert(p != s.last().port);
        assert(leases_map(sub).remove(p).insert(s.last().port, s.last()@) =~= leases_map(
            sub,
        ).insert(s.last().port, s.last()@).remove(p));
    }
}

/// Replacing the entry at `i` by one with the same port updates the map at
/// that port.
pub proof fn lemma_leases_map_update(s: Seq<Lease>, i: int, l: Lease)
    requires
        ports_distinct(s),
        0 <= i < s.len(),
        l.port == s[i].port,
    ensures
        leases_map(s.update(i, l)) == leases_map(s).insert(l.port, l@),
    decreases s.len(),
{
    let sub = s.drop_last();
    if i == s.len() - 1 {
        assert(s.update(i, l).drop_last() =~= sub);
        assert(s.update(i, l).last() == l);
        assert(leases_map(sub).insert(l.port, s[i]@).insert(l.port, l@) =~= leases_map(
            sub,
        ).insert(l.port, l@));
    } else {
        assert(s.update(i, l).drop_last() =~= sub.update(i, l));
        assert(s.update(i, l).last() == s.last());
        lemma_leases_map_update(sub, i, l);
        assert(sub[i] == s[i]);
        assert(l.port != s.last().port);
        assert(leases_map(sub).insert(l.port, l@).insert(s.last().port, s.last()@) =~= leases_map(
            sub,
        ).insert(s.last().port, s.last()@).insert(l.port, l@));
    }
}

/// The authoritative map from port to lease, with its configuration: the
/// inclusive allocatable range and the default time-to-live.
pub struct LeaseTable {
    leases: Vec<Lease>,
    min_port: u16,
    max_port: u16,
    default_ttl: u64,
}

impl View for LeaseTable {
    type V = Map<u16, LeaseData>;

    closed spec fn view(&self) -> Map<u16, LeaseData> {
        leases_map(self.leases@)
    }
}

impl LeaseTable {
    /// Lower inclusive bound of the allocatable range.
    pub closed spec fn min_port_spec(&self) -> u16 {
        self.min_port
    }

    /// Upper inclusive bound of the allocatable range.
    pub closed spec fn max_port_spec(&self) -> u16 {
        self.max_port
    }

    /// Time-to-live given to a lease whose request names none.
    pub closed spec fn default_ttl_spec(&self) -> u64 {
        self.default_ttl
    }

    /// The images of the stored leases, in table order.
    pub closed spec fn lease_seq(&self) -> Seq<LeaseData> {
        self.leases@.map_values(|l: Lease| l@)
    }

    /// The configuration carried over from `other` unchanged.
    pub open spec fn same_config(&self, other: &LeaseTable) -> bool {
        &&& self.min_port_spec() == other.min_port_spec()
        &&& self.max_port_spec() == other.max_port_spec()
        &&& self.default_ttl_spec() == other.default_ttl_spec()
    }

    /// Well-formedness: a sane range, a positive default time-to-live, at
    /// most one lease per port, and every stored lease valid.
    pub closed spec fn wf(&self) -> bool {
        &&& self.min_port <= self.max_port
        &&& self.default_ttl >= 1
        &&& ports_distinct(self.leases@)
        &&& forall|i: int| 0 <= i < self.leases@.len() ==> lease_valid(#[trigger] self.leases@[i]@)
    }

    /// An empty table over the given range, with the given default
    /// time-to-live.
    pub fn new(min_port: u16, max_port: u16, default_ttl: u64) -> (r: LeaseTable)
        requires
            min_port <= max_port,
            default_ttl >= 1,
        ensures
            r.wf(),
            r@ == Map::<u16, LeaseData>::empty(),
            r.min_port_spec() == min_port,
            r.max_port_spec() == max_port,
            r.default_ttl_spec() == default_ttl,
    {
        LeaseTable { leases: Vec::new(), min_port, max_port, default_ttl }
    }

    /// Lower inclusive bound of the allocatable range.
    pub fn min_port(&self) -> (r: u16)
        ensures
            r == self.min_port_spec(),
    {
        self.min_port
    }

    /// Upper inclusive bound of the allocatable range.
    pub fn max_port(&self) -> (r: u16)
        ensures
            r == self.max_port_spec(),
    {
        self.max_port
    }

    /// Time-to-live given to a lease whose request names none.
    pub fn default_ttl(&self) -> (r: u64)
        ensures
            r == self.default_ttl_spec(),
    {
        self.default_ttl
    }

    /// Whether some lease currently holds `port`.
    pub fn contains_port(&self, port: u16) -> (r: bool)
        ensures
            r == self@.dom().contains(port),
    {
        proof {
            lemma_leases_map_dom(self.leases@);
        }
        let n = self.leases.len();
        let mut i: usize = 0;
        while i < n
            invariant
                n == self.leases@.len(),
                0 <= i <= n,
                forall|j: int| 0 <= j < i ==> self.leases@[j].port != port,
            decreases n - i,
        {
            if self.leases[i].port == port {
                proof {
                    lemma_leases_map_dom(self.leases@);
                }
                return true;
            }
            i += 1;
        }
        false
    }

    /// Position of the lease holding `port`, if any.
    fn index_of_port(&self, port: u16) -> (r: Option<usize>)
        ensures
            match r {
                Some(i) => i < self.leases@.len() && self.leases@[i as int].port == port,
                None => forall|j: int| 0 <= j < self.leases@.len() ==> self.leases@[j].port != port,
            },
    {
        let n = self.leases.len();
        let mut i: usize = 0;
        while i < n
            invariant
                n == self.leases@.len(),
                0 <= i <= n,
                forall|j: int| 0 <= j < i ==> self.leases@[j].port != port,
            decreases n - i,
        {
            if self.leases[i].port == port {
                return Some(i);
            }
            i += 1;
        }
        None
    }

    /// The lowest port of the configured range that no lease holds, with the
    /// proof that everything below it is taken; `None` when the whole range
    /// is occupied.
    pub fn find_free_port(&self) -> (r: Option<u16>)
        requires
            self.wf(),
        ensures
            match r {
                Some(p) => {
                    &&& self.min_port_spec() <= p <= self.max_port_spec()
                    &&& !self@.dom().contains(p)
                    &&& forall|q: u16|
                        self.min_port_spec() <= q < p ==> self@.dom().contains(q)
                },
                None => forall|q: u16|
                    self.min_port_spec() <= q <= self.max_port_spec() ==> self@.dom().contains(q),
            },
    {
        let mut p: u32 = self.min_port as u32;
        while p <= self.max_port as u32
            invariant
                self.min_port as u32 <= p <= self.max_port as u32 + 1,
                forall|q: u16|
                    self.min_port_spec() <= q && (q as u32) < p ==> self@.dom().contains(q),
            decreases self.max_port as int + 1 - p,
        {
            if !self.contains_port(p as u16) {
                return Some(p as u16);
            }
            p += 1;
        }
        None
    }

    /// Adds a lease for a port that nothing holds yet.
    pub(crate) fn insert_lease(&mut self, lease: Lease)
        requires
            old(self).wf(),
            !old(self)@.dom().contains(lease@.port),
            lease_valid(lease@),
        ensures
            final(self).wf(),
            final(self).same_config(old(self)),
            final(self)@ == old(self)@.insert(lease@.port, lease@),
    {
        proof {
            lemma_leases_map_dom(self.leases@);
            lemma_leases_map_push(self.leases@, lease);
        }
        let ghost s0 = self.leases@;
        self.leases.push(lease);
        proof {
            assert forall|i: int, j: int|
                0 <= i < j < self.leases@.len() implies self.leases@[i].port
                != self.leases@[j].port by {
                if j == self.leases@.len() - 1 {
                    assert(s0[i].port == self.leases@[i].port);
                }
            }
        }
    }

    /// Removes the lease on `port`, telling whether one was there; the port
    /// is immediately free again.
    pub(crate) fn remove_port(&mut self, port: u16) -> (r: bool)
        requires
            old(self).wf(),
        ensures
            final(self).wf(),
            final(self).same_config(old(self)),
            r == old(self)@.dom().contains(port),
            r ==> final(self)@ == old(self)@.remove(port),
            !r ==> final(self)@ == old(self)@ && *final(self) == *old(self),
    {
        proof {
            lemma_leases_map_dom(self.leases@);
        }
        match self.index_of_port(port) {
            Some(i) => {
                proof {
                    lemma_leases_map_remove(self.leases@, i as int);
                }
                let ghost s0 = self.leases@;
                self.leases.remove(i);
                proof {
                    s0.remove_ensures(i as int);
                    assert forall|a: int, b: int|
                        0 <= a < b < self.leases@.len() implies self.leases@[a].port
                        != self.leases@[b].port by {
                        let a0 = if a < i as int {
                            a
                        } else {
                            a + 1
                        };
                        let b0 = if b < i as int {
                            b
                        } else {
                            b + 1
                        };
                        assert(self.leases@[a] == s0[a0]);
                        assert(self.leases@[b] == s0[b0]);
                    }
                }
                true
            },
            None => false,
        }
    }

    /// Moves the heartbeat of the lease on `port` up to `now` (never down)
    /// and hands the resulting heartbeat back.  Nothing else of the lease
    /// changes; `None` when no lease holds `port`.
    pub(crate) fn renew_port(&mut self, port: u16, now: u64) -> (r: Option<u64>)
        requires
            old(self).wf(),
        ensures
            final(self).wf(),
            final(self).same_config(old(self)),
            r is Some == old(self)@.dom().contains(port),
            match r {
                Some(heartbeat) => {
                    &&& heartbeat == lease_renewed(old(self)@[port], now).last_heartbeat
                    &&& final(self)@ == old(self)@.insert(
                        port,
                        lease_renewed(old(self)@[port], now),
                    )
                },
                None => final(self)@ == old(self)@ && *final(self) == *old(self),
            },
    {
        proof {
            lemma_leases_map_dom(self.leases@);
            lemma_leases_map_entries(self.leases@);
        }
        match self.index_of_port(port) {
            Some(i) => {
                let mut renewed = self.leases[i].clone();
                if now > renewed.last_heartbeat {
                    renewed.last_heartbeat = now;
                }
                proof {
                    assert(renewed@ == lease_renewed(self.leases@[i as int]@, now));
                    assert(leases_map(self.leases@).contains_pair(
                        self.leases@[i as int].port,
                        self.leases@[i as int]@,
                    ));
                    assert(old(self)@[port] == self.leases@[i as int]@);
                    lemma_leases_map_update(self.leases@, i as int, renewed);
                }
                let heartbeat = renewed.last_heartbeat;
                let ghost s0 = self.leases@;
                self.leases.set(i, renewed);
                proof {
                    assert forall|a: int, b: int|
                        0 <= a < b < self.leases@.len() implies self.leases@[a].port
                        != self.leases@[b].port by {
                        assert(s0[a].port == self.leases@[a].port);
                        assert(s0[b].port == self.leases@[b].port);
                    }
                }
                Some(heartbeat)
            },
            None => None,
        }
    }

    /// A snapshot copy of every current lease, in table order.
    pub fn list_all(&self) -> (r: Vec<Lease>)
        ensures
            r@.map_values(|l: Lease| l@) == self.lease_seq(),
    {
        let r = self.leases.clone();
        proof {
            assert forall|i: int| 0 <= i < r@.len() implies r@.map_values(|l: Lease| l@)[i]
                == self.lease_seq()[i] by {
                assert(vstd::pervasive::cloned::<Lease>(self.leases@[i], r@[i]));
            }
            assert(r@.map_values(|l: Lease| l@) =~= self.lease_seq());
        }
        r
    }

    /// Every port holding a lease whose holder's name is exactly `name`,
    /// with one representative lease when any matches.  Which matching lease
    /// is the representative is left open.
    pub fn lookup_by_service(&self, name: &String) -> (r: LookupResponse)
        requires
            self.wf(),
        ensures
            r.service_name@ == name@,
            forall|p: u16|
                #[trigger] r.all_ports@.contains(p) <==> (self@.dom().contains(p)
                    && self@[p].service_name == name@),
            r.all_ports@.no_duplicates(),
            match r.lease {
                Some(l) => {
                    &&& self@.contains_pair(l@.port, l@)
                    &&& l@.service_name == name@
                    &&& r.port == Some(l.port)
                    &&& r.all_ports@.len() > 0
                },
                None => r.all_ports@.len() == 0 && r.port is None,
            },
    {
        proof {
            lemma_leases_map_dom(self.leases@);
            lemma_leases_map_entries(self.leases@);
        }
        let mut all_ports: Vec<u16> = Vec::new();
        let mut lease: Option<Lease> = None;
        let n = self.leases.len();
        let mut i: usize = 0;
        while i < n
            invariant
                self.wf(),
                n == self.leases@.len(),
                0 <= i <= n,
                forall|k: int|
                    0 <= k < self.leases@.len() ==> #[trigger] leases_map(
                        self.leases@,
                    ).contains_pair(self.leases@[k].port, self.leases@[k]@),
                forall|m: int|
                    0 <= m < all_ports@.len() ==> self@.dom().contains(#[trigger] all_ports@[m])
                        && self@[all_ports@[m]].service_name == name@,
                forall|m: int|
                    0 <= m < all_ports@.len() ==> exists|k: int|
                        0 <= k < i && #[trigger] all_ports@[m] == self.leases@[k].port,
                forall|k: int|
                    0 <= k < i && (#[trigger] self.leases@[k])@.service_name == name@
                        ==> all_ports@.contains(self.leases@[k].port),
                all_ports@.no_duplicates(),
                match lease {
                    Some(l) => {
                        &&& self@.contains_pair(l@.port, l@)
                        &&& l@.service_name == name@
                        &&& all_ports@.len() > 0
                    },
                    None => all_ports@.len() == 0,
                },
            decreases n - i,
        {
            let cur = &self.leases[i];
            if cur.service_name == *name {
                let ghost before = all_ports@;
                proof {
                    assert(leases_map(self.leases@).contains_pair(
                        self.leases@[i as int].port,
                        self.leases@[i as int]@,
                    ));
                    if before.contains(cur.port) {
                        let m = choose|m: int| 0 <= m < before.len() && before[m] == cur.port;
                        let k = choose|k: int|
                            0 <= k < i && before[m] == self.leases@[k].port;
                        assert(self.leases@[k].port == self.leases@[i as int].port);
                        assert(false);
                    }
                }
                all_ports.push(cur.port);
                proof {
                    assert forall|k: int|
                        0 <= k < i + 1 && (#[trigger] self.leases@[k])@.service_name
                            == name@ implies all_ports@.contains(self.leases@[k].port) by {
                        if k < i {
                            let m = choose|m: int|
                                0 <= m < before.len() && before[m] == self.leases@[k].port;
                            assert(all_ports@[m] == self.leases@[k].port);
                        } else {
                            assert(all_ports@[all_ports@.len() - 1] == self.leases@[k].port);
                        }
                    }
                }
                if lease.is_none() {
                    lease = Some(cur.clone());
                }
            }
            i += 1;
        }
        let port = match &lease {
            Some(l) => Some(l.port),
            None => None,
        };
        proof {
            assert forall|p: u16|
                self@.dom().contains(p) && self@[p].service_name == name@ implies #[trigger]
            all_ports@.contains(p) by {
                let k = choose|k: int| 0 <= k < self.leases@.len() && self.leases@[k].port == p;
                assert(leases_map(self.leases@).contains_pair(
                    self.leases@[k].port,
                    self.leases@[k]@,
                ));
                assert(self@[p] == self.leases@[k]@);
            }
        }
        LookupResponse { service_name: name.clone(), port, all_ports, lease }
    }

    /// The ports of every lease expired at instant `now`, each exactly once.
    fn collect_expired(&self, now: u64) -> (r: Vec<u16>)
        requires
            self.wf(),
        ensures
            r@.no_duplicates(),
            forall|m: int|
                0 <= m < r@.len() ==> self@.dom().contains(#[trigger] r@[m]) && lease_expired(
                    self@[r@[m]],
                    now,
                ),
            forall|p: u16|
                #[trigger] self@.dom().contains(p) && lease_expired(self@[p], now)
                    ==> r@.contains(p),
    {
        proof {
            lemma_leases_map_dom(self.leases@);
            lemma_leases_map_entries(self.leases@);
        }
        let mut r: Vec<u16> = Vec::new();
        let n = self.leases.len();
        let mut i: usize = 0;
        while i < n
            invariant
                self.wf(),
                n == self.leases@.len(),
                0 <= i <= n,
                forall|k: int|
                    0 <= k < self.leases@.len() ==> #[trigger] leases_map(
                        self.leases@,
                    ).contains_pair(self.leases@[k].port, self.leases@[k]@),
                forall|m: int|
                    0 <= m < r@.len() ==> self@.dom().contains(#[trigger] r@[m]) && lease_expired(
                        self@[r@[m]],
                        now,
                    ),
                forall|m: int|
                    0 <= m < r@.len() ==> exists|k: int|
                        0 <= k < i && #[trigger] r@[m] == self.leases@[k].port,
                forall|k: int|
                    0 <= k < i && lease_expired((#[trigger] self.leases@[k])@, now)
                        ==> r@.contains(self.leases@[k].port),
                r@.no_duplicates(),
            decreases n - i,
        {
            if self.leases[i].is_expired(now) {
                let port = self.leases[i].port;
                let ghost before = r@;
                proof {
                    assert(leases_map(self.leases@).contains_pair(
                        self.leases@[i as int].port,
                        self.leases@[i as int]@,
                    ));
                    if before.contains(port) {
                        let m = choose|m: int| 0 <= m < before.len() && before[m] == port;
                        let k = choose|k: int|
                            0 <= k < i && before[m] == self.leases@[k].port;
                        assert(self.leases@[k].port == self.leases@[i as int].port);
                        assert(false);
                    }
                }
                r.push(port);
                proof {
                    assert forall|k: int|
                        0 <= k < i + 1 && lease_expired(
                            (#[trigger] self.leases@[k])@,
                            now,
                        ) implies r@.contains(self.leases@[k].port) by {
                        if k < i {
                            let m = choose|m: int|
                                0 <= m < before.len() && before[m] == self.leases@[k].port;
                            assert(r@[m] == self.leases@[k].port);
                        } else {
                            assert(r@[r@.len() - 1] == self.leases@[k].port);
                        }
                    }
                }
            }
            i += 1;
        }
        proof {
            assert forall|p: u16|
                #[trigger] self@.dom().contains(p) && lease_expired(self@[p], now) implies
            r@.contains(p) by {
                let k = choose|k: int| 0 <= k < self.leases@.len() && self.leases@[k].port == p;
                assert(leases_map(self.leases@).contains_pair(
                    self.leases@[k].port,
                    self.leases@[k]@,
                ));
                assert(lease_expired(self.leases@[k]@, now));
            }
        }
        r
    }

    /// Removes every lease expired at instant `now` and reports their ports;
    /// everything still fresh stays untouched.
    pub(crate) fn evict_expired(&mut self, now: u64) -> (removed: Vec<u16>)
        requires
            old(self).wf(),
        ensures
            final(self).wf(),
            final(self).same_config(old(self)),
            forall|p: u16|
                #[trigger] final(self)@.dom().contains(p) <==> (old(self)@.dom().contains(p)
                    && !lease_expired(old(self)@[p], now)),
            forall|p: u16|
                #[trigger] final(self)@.dom().contains(p) ==> final(self)@[p] == old(self)@[p],
            forall|p: u16|
                #[trigger] removed@.contains(p) <==> (old(self)@.dom().contains(p)
                    && lease_expired(old(self)@[p], now)),
    {
        let expired = self.collect_expired(now);
        let ghost m0 = self@;
        let n = expired.len();
        let mut j: usize = 0;
        while j < n
            invariant
                self.wf(),
                self.same_config(old(self)),
                m0 == old(self)@,
                n == expired@.len(),
                0 <= j <= n,
                expired@.no_duplicates(),
                forall|m: int|
                    0 <= m < expired@.len() ==> m0.dom().contains(#[trigger] expired@[m])
                        && lease_expired(m0[expired@[m]], now),
                forall|p: u16|
                    #[trigger] m0.dom().contains(p) && lease_expired(m0[p], now)
                        ==> expired@.contains(p),
                forall|p: u16|
                    #[trigger] self@.dom().contains(p) <==> (m0.dom().contains(p)
                        && !expired@.subrange(0, j as int).contains(p)),
                forall|p: u16| #[trigger] self@.dom().contains(p) ==> self@[p] == m0[p],
            decreases n - j,
        {
            let port = expired[j];
            proof {
                if expired@.subrange(0, j as int).contains(port) {
                    let m = choose|m: int|
                        0 <= m < j && expired@.subrange(0, j as int)[m] == port;
                    assert(expired@[m] == expired@[j as int]);
                    assert(false);
                }
                assert(self@.dom().contains(port));
            }
            let ghost mj = self@;
            self.remove_port(port);
            proof {
                assert(expired@.subrange(0, j + 1 as int) =~= expired@.subrange(
                    0,
                    j as int,
                ).push(expired@[j as int]));
                assert forall|p: u16|
                    #[trigger] self@.dom().contains(p) <==> (m0.dom().contains(p) && !expired@
                    .subrange(0, j + 1 as int).contains(p)) by {
                    let pre = expired@.subrange(0, j as int);
                    let post = expired@.subrange(0, j + 1 as int);
                    if p == port {
                        assert(post[post.len() - 1] == port);
                        assert(post.contains(p));
                    } else {
                        assert(self@.dom().contains(p) <==> mj.dom().contains(p));
                        if pre.contains(p) {
                            let m = choose|m: int| 0 <= m < pre.len() && pre[m] == p;
                            assert(post[m] == p);
                            assert(post.contains(p));
                        }
                        if post.contains(p) {
                            let m = choose|m: int| 0 <= m < post.len() && post[m] == p;
                            assert(pre[m] == p);
                            assert(pre.contains(p));
                        }
                    }
                }
            }
            j += 1;
        }
        proof {
            assert(expired@.subrange(0, n as int) =~= expired@);
            assert forall|p: u16|
                #[trigger] self@.dom().contains(p) <==> (m0.dom().contains(p) && !lease_expired(
                    m0[p],
                    now,
                )) by {
                if m0.dom().contains(p) {
                    if expired@.contains(p) {
                        let m = choose|m: int| 0 <= m < expired@.len() && expired@[m] == p;
                        assert(lease_expired(m0[expired@[m]], now));
                    }
                }
            }
            assert forall|p: u16|
                #[trigger] expired@.contains(p) <==> (m0.dom().contains(p) && lease_expired(
                    m0[p],
                    now,
                )) by {
                if expired@.contains(p) {
                    let m = choose|m: int| 0 <= m < expired@.len() && expired@[m] == p;
                    assert(m0.dom().contains(expired@[m]));
                }
            }
        }
        expired
    }

    /// Lowest-free-port: with every port from `min_port` up to (but not
    /// including) `free` occupied and `free` itself open, any port that is
    /// itself open with everything below it occupied — what an allocation
    /// guarantees of the port it grants — can only be `free` itself.
    pub proof fn lemma_lowest_free_port(m: Map<u16, LeaseData>, min_port: u16, free: u16, p: u16)
        requires
            min_port <= free,
            forall|q: u16| min_port <= q < free ==> m.dom().contains(q),
            !m.dom().contains(free),
            min_port <= p,
            !m.dom().contains(p),
            forall|q: u16| min_port <= q < p ==> m.dom().contains(q),
        ensures
            p == free,
    {
    }

    /// Expiry sweep: a port no longer in the table after a sweep is absent
    /// from every snapshot that `list_all` hands out afterwards.
    pub proof fn lemma_absent_port_not_listed(&self, p: u16)
        requires
            self.wf(),
            !self@.dom().contains(p),
        ensures
            forall|i: int|
                0 <= i < self.lease_seq().len() ==> (#[trigger] self.lease_seq()[i]).port != p,
    {
        lemma_leases_map_dom(self.leases@);
        assert forall|i: int|
            0 <= i < self.lease_seq().len() implies (#[trigger] self.lease_seq()[i]).port != p by {
            assert(self.lease_seq()[i] == self.leases@[i]@);
            if self.leases@[i].port == p {
                assert(leases_map(self.leases@).dom().contains(p));
            }
        }
    }

    /// A well-formed table's configuration is sane: the range is non-empty
    /// and the default time-to-live positive.
    pub proof fn lemma_wf_config(&self)
        requires
            self.wf(),
        ensures
            self.min_port_spec() <= self.max_port_spec(),
            self.default_ttl_spec() >= 1,
    {
    }

    /// Port exclusivity: in a well-formed table no two leases share a port,
    /// whatever sequence of operations built it.
    pub proof fn lemma_exclusivity(&self)
        requires
            self.wf(),
        ensures
            forall|i: int, j: int|
                0 <= i < j < self.lease_seq().len() ==> self.lease_seq()[i].port
                    != self.lease_seq()[j].port,
    {
    }

    /// The snapshot that [`Self::list_all`] hands out agrees with the
    /// table's map: every snapshot entry is the table's entry for its port,
    /// and every held port shows up in the snapshot.
    pub proof fn lemma_snapshot_matches_table(&self)
        requires
            self.wf(),
        ensures
            forall|i: int|
                0 <= i < self.lease_seq().len() ==> self@.contains_pair(
                    (#[trigger] self.lease_seq()[i]).port,
                    self.lease_seq()[i],
                ),
            forall|p: u16|
                #[trigger] self@.dom().contains(p) ==> exists|i: int|
                    0 <= i < self.lease_seq().len() && self.lease_seq()[i].port == p,
    {
        lemma_leases_map_dom(self.leases@);
        lemma_leases_map_entries(self.leases@);
        assert forall|p: u16| #[trigger] self@.dom().contains(p) implies exists|i: int|
            0 <= i < self.lease_seq().len() && self.lease_seq()[i].port == p by {
            let k = choose|k: int| 0 <= k < self.leases@.len() && self.leases@[k].port == p;
            assert(self.lease_seq()[k].port == p);
        }
    }
}

} // verus!
