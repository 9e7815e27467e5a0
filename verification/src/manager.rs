//! The lease manager's request operations and its construction protocol.
//!
//! Each mutating operation works the in-memory table and the persistent
//! store in a fixed order.  Allocation persists before it exposes the lease
//! in memory, so a crash between the two leaves the store as the durable
//! record of truth.  Release and renewal mutate memory first and then the
//! store, and a store failure there is logged away rather than allowed to
//! undo the in-memory change; the next restart's reconciliation settles the
//! difference.

use vstd::prelude::*;
use crate::lease::{Lease, LeaseData, lease_expired, lease_renewed, lease_valid};
use crate::messages::LeaseError;
use crate::store;
use crate::table::LeaseTable;

verus! {

/// A loaded lease worth keeping at startup: well formed and still fresh at
/// the reconciliation instant.
pub open spec fn recoverable(l: LeaseData, now: u64) -> bool {
    lease_valid(l) && !lease_expired(l, now)
}

/// Whether `l` is the image of the first recoverable entry for port `p`
/// among the first `n` loaded leases: some entry below `n` holds `p`
/// recoverably with image `l`, and every earlier entry claiming `p` is not
/// recoverable.
pub open spec fn first_recovered_upto(
    loaded: Seq<Lease>,
    n: int,
    now: u64,
    p: u16,
    l: LeaseData,
) -> bool {
    exists|k: int|
        0 <= k < n && (#[trigger] loaded[k]).port == p && recoverable(loaded[k]@, now) && l
            == loaded[k]@ && (forall|j: int|
            0 <= j < k && (#[trigger] loaded[j]).port == p ==> !recoverable(loaded[j]@, now))
}

/// Rebuilds a table from the leases the store held: exactly the
/// recoverable ones are kept, the first recoverable entry per port should
/// the store ever hand out two for one port.
pub fn reconcile(
    loaded: Vec<Lease>,
    min_port: u16,
    max_port: u16,
    default_ttl: u64,
    now: u64,
) -> (t: LeaseTable)
    requires
        min_port <= max_port,
        default_ttl >= 1,
    ensures
        t.wf(),
        t.min_port_spec() == min_port,
        t.max_port_spec() == max_port,
        t.default_ttl_spec() == default_ttl,
        forall|p: u16|
            #[trigger] t@.dom().contains(p) <==> exists|k: int|
                0 <= k < loaded@.len() && (#[trigger] loaded@[k]).port == p && recoverable(
                    loaded@[k]@,
                    now,
                ),
        forall|p: u16|
            #[trigger] t@.dom().contains(p) ==> recoverable(t@[p], now) && first_recovered_upto(
                loaded@,
                loaded@.len() as int,
                now,
                p,
                t@[p],
            ),
{
    let mut t = LeaseTable::new(min_port, max_port, default_ttl);
    let n = loaded.len();
    let mut i: usize = 0;
    while i < n
        invariant
            t.wf(),
            t.min_port_spec() == min_port,
            t.max_port_spec() == max_port,
            t.default_ttl_spec() == default_ttl,
            n == loaded@.len(),
            0 <= i <= n,
            forall|p: u16|
                #[trigger] t@.dom().contains(p) <==> exists|k: int|
                    0 <= k < i && (#[trigger] loaded@[k]).port == p && recoverable(
                        loaded@[k]@,
                        now,
                    ),
            forall|p: u16|
                #[trigger] t@.dom().contains(p) ==> recoverable(t@[p], now) && first_recovered_upto(
                    loaded@,
                    i as int,
                    now,
                    p,
                    t@[p],
                ),
        decreases n - i,
    {
        let l = &loaded[i];
        let keep = !l.service_name.as_str().is_empty() && l.ttl_seconds >= 1 && l.allocated_at
            <= l.last_heartbeat && !l.is_expired(now) && !t.contains_port(l.port);
        let ghost pre = t;
        if keep {
            proof {
                assert forall|j: int|
                    0 <= j < i && (#[trigger] loaded@[j]).port == l.port implies !recoverable(
                    loaded@[j]@,
                    now,
                ) by {
                    if recoverable(loaded@[j]@, now) {
                        assert(exists|k: int|
                            0 <= k < i && (#[trigger] loaded@[k]).port == l.port && recoverable(
                                loaded@[k]@,
                                now,
                            ));
                        assert(t@.dom().contains(l.port));
                    }
                }
            }
            t.insert_lease(l.clone());
            proof {
                assert(loaded@[i as int].port == l.port);
                assert(recoverable(loaded@[i as int]@, now));
            }
        }
        proof {
            assert forall|p: u16|
                #[trigger] t@.dom().contains(p) implies recoverable(t@[p], now)
                && first_recovered_upto(loaded@, i + 1 as int, now, p, t@[p]) by {
                if pre@.dom().contains(p) {
                    assert(t@[p] == pre@[p]);
                    let k = choose|k: int|
                        0 <= k < i && (#[trigger] loaded@[k]).port == p && recoverable(
                            loaded@[k]@,
                            now,
                        ) && pre@[p] == loaded@[k]@ && (forall|j: int|
                            0 <= j < k && (#[trigger] loaded@[j]).port == p ==> !recoverable(
                                loaded@[j]@,
                                now,
                            ));
                    assert(0 <= k < i + 1 && loaded@[k].port == p && recoverable(loaded@[k]@, now)
                        && t@[p] == loaded@[k]@);
                } else {
                    assert(keep && p == l.port);
                    assert(t@[p] == loaded@[i as int]@);
                    assert(loaded@[i as int].port == p && recoverable(loaded@[i as int]@, now)
                        && t@[p] == loaded@[i as int]@);
                }
            }
            assert forall|p: u16| #[trigger] t@.dom().contains(p) implies exists|k: int|
                0 <= k < i + 1 && (#[trigger] loaded@[k]).port == p && recoverable(
                    loaded@[k]@,
                    now,
                ) by {
            }
            assert forall|p: u16|
                exists|k: int|
                    0 <= k < i + 1 && (#[trigger] loaded@[k]).port == p && recoverable(
                        loaded@[k]@,
                        now,
                    ) implies #[trigger] t@.dom().contains(p) by {
                let k = choose|k: int|
                    0 <= k < i + 1 && (#[trigger] loaded@[k]).port == p && recoverable(
                        loaded@[k]@,
                        now,
                    );
                if k == i as int && !t@.dom().contains(p) {
                    assert(loaded@[i as int].port == p);
                }
            }
        }
        i += 1;
    }
    t
}

impl LeaseTable {
    /// Builds the table at process start: loads every stored lease, purges
    /// from the store whatever expired while the process was down, and
    /// keeps in memory exactly the recoverable leases, so that no request
    /// ever sees a table inconsistent with the expiry rule.
    pub fn startup(
        conn: &rusqlite::Connection,
        min_port: u16,
        max_port: u16,
        default_ttl: u64,
        now: u64,
    ) -> (r: Result<LeaseTable, LeaseError>)
        requires
            min_port <= max_port,
            default_ttl >= 1,
        ensures
            match r {
                Ok(t) => {
                    &&& t.wf()
                    &&& t.min_port_spec() == min_port
                    &&& t.max_port_spec() == max_port
                    &&& t.default_ttl_spec() == default_ttl
                    &&& forall|p: u16|
                        #[trigger] t@.dom().contains(p) ==> recoverable(t@[p], now)
                },
                Err(e) => e == LeaseError::PersistenceFailure,
            },
    {
        let loaded = match store::load_leases(conn) {
            Ok(v) => v,
            Err(_) => {
                return Err(LeaseError::PersistenceFailure);
            },
        };
        let _ = store::delete_expired(conn, now);
        Ok(reconcile(loaded, min_port, max_port, default_ttl, now))
    }

    /// Grants the lowest free port of the range to `service_name` for
    /// `ttl_seconds` (the configured default when unspecified), writing the
    /// lease through to the store before exposing it in memory; when the
    /// store write fails, the call fails whole and no in-memory state
    /// changes.  `ResourceExhausted` exactly when every port of the range
    /// is taken.
    pub fn allocate(
        &mut self,
        conn: &rusqlite::Connection,
        service_name: String,
        ttl_seconds: Option<u64>,
        tags: Vec<String>,
        now: u64,
    ) -> (r: Result<Lease, LeaseError>)
        requires
            old(self).wf(),
            service_name@.len() > 0,
            ttl_seconds matches Some(t) ==> t >= 1,
        ensures
            final(self).wf(),
            final(self).same_config(old(self)),
            match r {
                Ok(lease) => {
                    &&& lease@.service_name == service_name@
                    &&& lease@.allocated_at == now
                    &&& lease@.last_heartbeat == now
                    &&& lease@.ttl_seconds == (match ttl_seconds {
                        Some(t) => t,
                        None => old(self).default_ttl_spec(),
                    })
                    &&& lease@.tags == tags.deep_view()
                    &&& old(self).min_port_spec() <= lease@.port <= old(self).max_port_spec()
                    &&& !old(self)@.dom().contains(lease@.port)
                    &&& forall|q: u16|
                        old(self).min_port_spec() <= q < lease@.port ==> old(
                            self,
                        )@.dom().contains(q)
                    &&& final(self)@ == old(self)@.insert(lease@.port, lease@)
                },
                Err(LeaseError::ResourceExhausted) => {
                    &&& final(self)@ == old(self)@
                    &&& forall|q: u16|
                        old(self).min_port_spec() <= q <= old(self).max_port_spec() ==> old(
                            self,
                        )@.dom().contains(q)
                },
                Err(LeaseError::PersistenceFailure) => {
                    &&& final(self)@ == old(self)@
                    &&& exists|q: u16|
                        old(self).min_port_spec() <= q <= old(self).max_port_spec() && !old(
                            self,
                        )@.dom().contains(q)
                },
                Err(LeaseError::NotFound) => false,
            },
            (forall|q: u16|
                old(self).min_port_spec() <= q <= old(self).max_port_spec() ==> old(
                    self,
                )@.dom().contains(q)) ==> r == Err::<Lease, LeaseError>(
                LeaseError::ResourceExhausted,
            ),
    {
        let port = match self.find_free_port() {
            Some(p) => p,
            None => {
                return Err(LeaseError::ResourceExhausted);
            },
        };
        proof {
            self.lemma_wf_config();
        }
        let ttl = match ttl_seconds {
            Some(t) => t,
            None => self.default_ttl(),
        };
        let lease = Lease {
            port,
            service_name,
            allocated_at: now,
            last_heartbeat: now,
            ttl_seconds: ttl,
            tags,
        };
        match store::save_lease(conn, &lease) {
            Ok(_) => {},
            Err(_) => {
                return Err(LeaseError::PersistenceFailure);
            },
        }
        self.insert_lease(lease.clone());
        Ok(lease)
    }

    /// Releases `port`: the lease leaves the table first, then the store's
    /// row is deleted; the port is immediately free for the next
    /// allocation.  Returns `NotFound`, touching neither table nor store,
    /// when no lease holds `port`.
    pub fn release(&mut self, conn: &rusqlite::Connection, port: u16) -> (r: Result<
        (),
        LeaseError,
    >)
        requires
            old(self).wf(),
        ensures
            final(self).wf(),
            final(self).same_config(old(self)),
            match r {
                Ok(_) => {
                    &&& old(self)@.dom().contains(port)
                    &&& final(self)@ == old(self)@.remove(port)
                },
                Err(LeaseError::NotFound) => {
                    &&& !old(self)@.dom().contains(port)
                    &&& final(self)@ == old(self)@
                },
                _ => false,
            },
            !old(self)@.dom().contains(port) ==> r == Err::<(), LeaseError>(LeaseError::NotFound)
                && final(self)@ == old(self)@,
    {
        if self.remove_port(port) {
            let _ = store::delete_lease(conn, port);
            Ok(())
        } else {
            Err(LeaseError::NotFound)
        }
    }

    /// Renews the lease on `port` at instant `now`: its heartbeat moves up
    /// to `now` (never backwards) in the table and then in the store, and
    /// nothing else of the lease changes.  Returns `NotFound`, touching
    /// neither table nor store, when no lease holds `port`.
    pub fn renew(&mut self, conn: &rusqlite::Connection, port: u16, now: u64) -> (r: Result<
        (),
        LeaseError,
    >)
        requires
            old(self).wf(),
        ensures
            final(self).wf(),
            final(self).same_config(old(self)),
            match r {
                Ok(_) => {
                    &&& old(self)@.dom().contains(port)
                    &&& final(self)@ == old(self)@.insert(
                        port,
                        lease_renewed(old(self)@[port], now),
                    )
                },
                Err(LeaseError::NotFound) => {
                    &&& !old(self)@.dom().contains(port)
                    &&& final(self)@ == old(self)@
                },
                _ => false,
            },
    {
        match self.renew_port(port, now) {
            Some(heartbeat) => {
                let _ = store::update_heartbeat(conn, port, heartbeat);
                Ok(())
            },
            None => Err(LeaseError::NotFound),
        }
    }

    /// One sweep cycle: finds every lease expired at instant `now`, evicts
    /// it from the table, and deletes its row from the store.  A store
    /// failure for one port never keeps another expired port from being
    /// evicted.  Reports the evicted ports.
    pub fn sweep(&mut self, conn: &rusqlite::Connection, now: u64) -> (removed: Vec<u16>)
        requires
            old(self).wf(),
        ensures
            final(self).wf(),
            final(self).same_config(old(self)),
            forall|p: u16|
                #[trigger] final(self)@.dom().contains(p) <==> (old(self)@.dom().contains(p)
                    && !lease_expired(old(self)@[p], now)),
            forall|p: u16|
                #[trigger] final(self)@.dom().contains(p) ==> final(self)@[p] == old(self)@[p],
            forall|p: u16|
                #[trigger] removed@.contains(p) <==> (old(self)@.dom().contains(p)
                    && lease_expired(old(self)@[p], now)),
    {
        let removed = self.evict_expired(now);
        let n = removed.len();
        let mut i: usize = 0;
        while i < n
            invariant
                n == removed@.len(),
                0 <= i <= n,
            decreases n - i,
        {
            let _ = store::delete_lease(conn, removed[i]);
            i += 1;
        }
        removed
    }
}

} // verus!

