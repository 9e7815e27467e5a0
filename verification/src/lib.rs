//! A lease manager for a bounded range of network ports.
//!
//! The manager hands out time-limited, exclusive leases on port numbers to
//! named services.  A lease stays alive as long as its holder renews it; a
//! lease that misses renewals past its time-to-live is swept away and its
//! port becomes free again.  Every lease is mirrored in a durable store so
//! that a restart can rebuild the table, purging whatever expired while the
//! process was down.

pub mod lease;
pub mod manager;
pub mod messages;
pub mod store;
pub mod table;
