//! The lease record and its expiry rule.
//!
//! Time is measured in whole seconds since an arbitrary epoch.  A lease is
//! expired at instant `now` exactly when `now` lies strictly past
//! `last_heartbeat + ttl_seconds`.

use vstd::prelude::*;

verus! {

/// Mathematical image of a [`Lease`].
pub ghost struct LeaseData {
    pub port: u16,
    pub service_name: Seq<char>,
    pub allocated_at: u64,
    pub last_heartbeat: u64,
    pub ttl_seconds: u64,
    pub tags: Seq<Seq<char>>,
}

/// A time-bounded exclusive claim on one port by one named service.
#[derive(Debug)]
pub struct Lease {
    /// The claimed port; unique key of the table and of the store.
    pub port: u16,
    /// Non-empty name of the holder; several leases may share it.
    pub service_name: String,
    /// Set once at creation, immutable afterwards.
    pub allocated_at: u64,
    /// Raised (never lowered) by each renewal; starts equal to `allocated_at`.
    pub last_heartbeat: u64,
    /// Positive time-to-live counted from the last heartbeat.
    pub ttl_seconds: u64,
    /// Caller-supplied free-form labels, kept in order and never inspected.
    pub tags: Vec<String>,
}

impl View for Lease {
    type V = LeaseData;

    open spec fn view(&self) -> LeaseData {
        LeaseData {
            port: self.port,
            service_name: self.service_name@,
            allocated_at: self.allocated_at,
            last_heartbeat: self.last_heartbeat,
            ttl_seconds: self.ttl_seconds,
            tags: self.tags.deep_view(),
        }
    }
}

/// A well-formed lease: named holder, positive time-to-live, and a heartbeat
/// no older than the allocation instant.
pub open spec fn lease_valid(l: LeaseData) -> bool {
    &&& l.service_name.len() > 0
    &&& l.ttl_seconds >= 1
    &&& l.allocated_at <= l.last_heartbeat
}

/// The expiry rule: a lease is expired once `now` passes its deadline
/// `last_heartbeat + ttl_seconds`.
pub open spec fn lease_expired(l: LeaseData, now: u64) -> bool {
    now > l.last_heartbeat + l.ttl_seconds
}

/// The image of a lease after a renewal at instant `now`: only the heartbeat
/// moves, and never backwards.
pub open spec fn lease_renewed(l: LeaseData, now: u64) -> LeaseData {
    LeaseData {
        last_heartbeat: if now > l.last_heartbeat {
            now
        } else {
            l.last_heartbeat
        },
        ..l
    }
}

impl Lease {
    /// Whether this lease is expired at instant `now`.
    pub fn is_expired(&self, now: u64) -> (r: bool)
        ensures
            r == lease_expired(self@, now),
    {
        now > self.last_heartbeat && now - self.last_heartbeat > self.ttl_seconds
    }
}

/// Copies a vector of tag strings, keeping the exact characters and order.
pub fn clone_tags(v: &Vec<String>) -> (res: Vec<String>)
    ensures
        res.deep_view() == v.deep_view(),
{
    let res = v.clone();
    proof {
        assert forall|i: int| 0 <= i < res@.len() implies res.deep_view()[i]
            == v.deep_view()[i] by {
            assert(vstd::pervasive::cloned::<String>(v@[i], res@[i]));
        }
        assert(res.deep_view() =~= v.deep_view());
    }
    res
}

impl Clone for Lease {
    /// A copy whose image is exactly the original's.
    fn clone(&self) -> (res: Self)
        ensures
            res@ == self@,
    {
        Lease {
            port: self.port,
            service_name: self.service_name.clone(),
            allocated_at: self.allocated_at,
            last_heartbeat: self.last_heartbeat,
            ttl_seconds: self.ttl_seconds,
            tags: clone_tags(&self.tags),
        }
    }
}

/// Renewal extends life: after a renewal at instant `t`, the lease is not
/// expired at any instant earlier than `t + ttl_seconds`, however old its
/// original allocation was.
pub proof fn lemma_renewal_extends_life(l: LeaseData, t: u64, u: u64)
    requires
        (u as int) < t + l.ttl_seconds,
    ensures
        !lease_expired(lease_renewed(l, t), u),
{
}

} // verus!
