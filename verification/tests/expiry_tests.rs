use port_manager::lease::Lease;
use port_manager::store::{self, LeaseRow};
use port_manager::table::LeaseTable;

fn fresh_table(conn: &rusqlite::Connection, min: u16, max: u16, ttl: u64) -> LeaseTable {
    LeaseTable::startup(conn, min, max, ttl, 0).expect("startup on a fresh store")
}

#[test]
fn test_renewal_extends_life() {
    let conn = store::init_db(":memory:").expect("open in-memory store");
    let mut table = fresh_table(&conn, 8000, 8002, 300);

    let lease = table
        .allocate(&conn, "svc".to_string(), Some(60), Vec::new(), 1000)
        .expect("allocation");
    // Long past the original deadline of 1000 + 60, but renewed at 1050.
    table.renew(&conn, lease.port, 1050).expect("renewal of a live lease");

    let removed = table.sweep(&conn, 1109);
    assert!(removed.is_empty());
    assert!(table.contains_port(lease.port));

    // 1111 lies past the renewed deadline 1050 + 60.
    let removed = table.sweep(&conn, 1111);
    assert_eq!(removed, vec![lease.port]);
    assert!(!table.contains_port(lease.port));
}

#[test]
fn test_renewal_never_lowers_heartbeat() {
    let conn = store::init_db(":memory:").expect("open in-memory store");
    let mut table = fresh_table(&conn, 8000, 8002, 300);

    let lease = table
        .allocate(&conn, "svc".to_string(), Some(60), Vec::new(), 1000)
        .expect("allocation");
    // A clock running backwards must not shorten the lease's life.
    table.renew(&conn, lease.port, 900).expect("renewal with an earlier instant");

    let listed = table.list_all();
    assert_eq!(listed[0].last_heartbeat, 1000);
}

#[test]
fn test_expiry_sweep() {
    let conn = store::init_db(":memory:").expect("open in-memory store");
    let mut table = fresh_table(&conn, 8000, 8002, 300);

    let doomed = table
        .allocate(&conn, "doomed".to_string(), Some(60), Vec::new(), 1000)
        .expect("allocation of the lease that will expire");
    let kept = table
        .allocate(&conn, "kept".to_string(), Some(5000), Vec::new(), 1000)
        .expect("allocation of the lease that stays");

    // At 1060 the first lease is exactly at its deadline: not yet expired.
    let removed = table.sweep(&conn, 1060);
    assert!(removed.is_empty());

    let removed = table.sweep(&conn, 1061);
    assert_eq!(removed, vec![doomed.port]);

    let listed: Vec<Lease> = table.list_all();
    assert!(listed.iter().all(|l| l.port != doomed.port));
    assert!(listed.iter().any(|l| l.port == kept.port));

    // The store forgot the swept lease as well.
    let stored = store::load_leases(&conn).expect("load the mirror back");
    assert!(stored.iter().all(|l| l.port != doomed.port));
    assert!(stored.iter().any(|l| l.port == kept.port));
}

#[test]
fn test_restart_recovery() {
    let conn = store::init_db(":memory:").expect("open in-memory store");

    {
        let mut table = fresh_table(&conn, 8000, 8010, 300);
        // Lease A stays fresh until 1000 + 2000; lease B expires at 1010.
        table
            .allocate(&conn, "fresh".to_string(), Some(2000), Vec::new(), 1000)
            .expect("allocation of A");
        table
            .allocate(&conn, "stale".to_string(), Some(10), Vec::new(), 1000)
            .expect("allocation of B");
    }

    // The process comes back at 2000: A must survive, B must be purged.
    let table = LeaseTable::startup(&conn, 8000, 8010, 300, 2000).expect("restart");
    let listed = table.list_all();
    assert_eq!(listed.len(), 1);
    assert_eq!(listed[0].service_name, "fresh");

    let stored = store::load_leases(&conn).expect("load the mirror back");
    assert_eq!(stored.len(), 1);
    assert_eq!(stored[0].service_name, "fresh");
}

#[test]
fn test_tags_survive_restart() {
    let conn = store::init_db(":memory:").expect("open in-memory store");
    let tags = vec!["alpha".to_string(), "two words".to_string(), "\"quoted\"".to_string()];

    {
        let mut table = fresh_table(&conn, 8000, 8010, 300);
        table
            .allocate(&conn, "tagged".to_string(), Some(1000), tags.clone(), 100)
            .expect("allocation with tags");
    }

    let table = LeaseTable::startup(&conn, 8000, 8010, 300, 200).expect("restart");
    let found = table.lookup_by_service(&"tagged".to_string());
    let lease = found.lease.expect("the tagged lease came back");
    assert_eq!(lease.tags, tags);
}

#[test]
fn test_heartbeat_survives_restart() {
    let conn = store::init_db(":memory:").expect("open in-memory store");

    {
        let mut table = fresh_table(&conn, 8000, 8010, 300);
        let lease = table
            .allocate(&conn, "svc".to_string(), Some(60), Vec::new(), 1000)
            .expect("allocation");
        table.renew(&conn, lease.port, 1500).expect("renewal");
    }

    // Without the renewal having reached the store, the lease would be dead
    // at 1400; with it, it lives until 1500 + 60.
    let table = LeaseTable::startup(&conn, 8000, 8010, 300, 1400).expect("restart");
    let listed = table.list_all();
    assert_eq!(listed.len(), 1);
    assert_eq!(listed[0].last_heartbeat, 1500);
}

#[test]
fn test_expired_row_ports_exact() {
    let row = |port: u16, heartbeat: i64, ttl: i64| LeaseRow {
        port,
        service_name: "svc".to_string(),
        allocated_at: heartbeat,
        last_heartbeat: heartbeat,
        ttl_seconds: ttl,
        tags_json: "[]".to_string(),
    };
    let rows = vec![
        row(1, 100, 50),   // deadline 150 < 200: expired
        row(2, 180, 50),   // deadline 230: alive
        row(3, 0, 200),    // deadline 200 == 200: alive, strictly past only
        row(4, -5, 1000),  // spoiled row: purged
    ];
    assert_eq!(store::expired_row_ports(&rows, 200), vec![1, 4]);
}

#[test]
fn test_reconcile_filters_and_dedups() {
    let mk = |port: u16, name: &str, heartbeat: u64, ttl: u64| Lease {
        port,
        service_name: name.to_string(),
        allocated_at: heartbeat,
        last_heartbeat: heartbeat,
        ttl_seconds: ttl,
        tags: Vec::new(),
    };
    let loaded = vec![
        mk(8000, "stale", 100, 50), // deadline 150, dead at 200
        mk(8001, "kept", 200, 500),
        mk(8001, "shadowed", 200, 500), // same port: the first entry wins
        mk(8002, "", 200, 500),         // unnamed holder: dropped
        mk(8003, "zero", 200, 0),       // no time-to-live: dropped
    ];
    let table = port_manager::manager::reconcile(loaded, 8000, 9000, 300, 200);
    let listed = table.list_all();
    assert_eq!(listed.len(), 1);
    assert_eq!(listed[0].port, 8001);
    assert_eq!(listed[0].service_name, "kept");
}

#[test]
fn test_rows_to_leases_exact() {
    let row = |port: u16, name: &str, alloc: i64, hb: i64, ttl: i64, tags: &str| LeaseRow {
        port,
        service_name: name.to_string(),
        allocated_at: alloc,
        last_heartbeat: hb,
        ttl_seconds: ttl,
        tags_json: tags.to_string(),
    };
    let rows = vec![
        row(8000, "a", 10, 20, 30, "[\"x\",\"y\"]"),
        row(8001, "bad", -1, 20, 30, "[]"), // spoiled row: dropped
        row(8002, "c", 5, 6, 7, "not json"), // unreadable tag text: no tags
    ];
    let leases = store::rows_to_leases(&rows);
    assert_eq!(leases.len(), 2);
    assert_eq!(leases[0].port, 8000);
    assert_eq!(leases[0].service_name, "a");
    assert_eq!(leases[0].allocated_at, 10);
    assert_eq!(leases[0].last_heartbeat, 20);
    assert_eq!(leases[0].ttl_seconds, 30);
    assert_eq!(leases[0].tags, vec!["x".to_string(), "y".to_string()]);
    assert_eq!(leases[1].port, 8002);
    assert!(leases[1].tags.is_empty());
}
