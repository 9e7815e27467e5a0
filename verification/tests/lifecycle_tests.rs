use port_manager::lease::Lease;
use port_manager::messages::{AllocateRequest, LeaseError};
use port_manager::store;
use port_manager::table::LeaseTable;

fn fresh_table(conn: &rusqlite::Connection, min: u16, max: u16, ttl: u64) -> LeaseTable {
    LeaseTable::startup(conn, min, max, ttl, 0).expect("startup on a fresh store")
}

#[test]
fn test_full_lifecycle() {
    let conn = store::init_db(":memory:").expect("open in-memory store");
    let mut table = fresh_table(&conn, 8000, 9000, 300);

    let req = AllocateRequest {
        service_name: "integration-test-service".to_string(),
        ttl_seconds: Some(60),
        tags: Some(vec!["test".to_string()]),
    };
    let lease = table
        .allocate(
            &conn,
            req.service_name,
            req.ttl_seconds,
            req.tags.unwrap_or_default(),
            1000,
        )
        .expect("allocation on an empty table");
    assert_eq!(lease.service_name, "integration-test-service");
    assert_eq!(lease.ttl_seconds, 60);
    assert_eq!(lease.tags, vec!["test".to_string()]);

    let listed: Vec<Lease> = table.list_all();
    assert!(listed.iter().any(|l| l.port == lease.port));

    let released = table.release(&conn, lease.port);
    assert!(released.is_ok());
    assert!(!table.contains_port(lease.port));
}

#[test]
fn test_exclusivity() {
    let conn = store::init_db(":memory:").expect("open in-memory store");
    let mut table = fresh_table(&conn, 8000, 8010, 300);

    for _ in 0..5 {
        table
            .allocate(&conn, "svc".to_string(), None, Vec::new(), 10)
            .expect("allocation within the range");
    }
    table.release(&conn, 8002).expect("release a held port");
    table
        .allocate(&conn, "svc2".to_string(), None, Vec::new(), 11)
        .expect("re-allocation of the freed port");

    let listed = table.list_all();
    for a in 0..listed.len() {
        for b in (a + 1)..listed.len() {
            assert_ne!(listed[a].port, listed[b].port);
        }
    }
}

#[test]
fn test_range_containment() {
    let conn = store::init_db(":memory:").expect("open in-memory store");
    let mut table = fresh_table(&conn, 8000, 8002, 300);

    for _ in 0..3 {
        let lease = table
            .allocate(&conn, "svc".to_string(), None, Vec::new(), 10)
            .expect("allocation within the range");
        assert!(lease.port >= 8000 && lease.port <= 8002);
    }
}

#[test]
fn test_lowest_free_port() {
    let conn = store::init_db(":memory:").expect("open in-memory store");
    let mut table = fresh_table(&conn, 8000, 8005, 300);

    let p0 = table
        .allocate(&conn, "svc".to_string(), None, Vec::new(), 10)
        .expect("first allocation")
        .port;
    let p1 = table
        .allocate(&conn, "svc".to_string(), None, Vec::new(), 10)
        .expect("second allocation")
        .port;
    let p2 = table
        .allocate(&conn, "svc".to_string(), None, Vec::new(), 10)
        .expect("third allocation")
        .port;
    assert_eq!((p0, p1, p2), (8000, 8001, 8002));

    table.release(&conn, 8001).expect("release the middle port");
    let again = table
        .allocate(&conn, "svc".to_string(), None, Vec::new(), 10)
        .expect("allocation after a release")
        .port;
    assert_eq!(again, 8001);
}

#[test]
fn test_exhaustion() {
    let conn = store::init_db(":memory:").expect("open in-memory store");
    let mut table = fresh_table(&conn, 8000, 8002, 300);

    for _ in 0..3 {
        table
            .allocate(&conn, "svc".to_string(), None, Vec::new(), 10)
            .expect("allocation while the range has room");
    }
    let full = table.allocate(&conn, "svc".to_string(), None, Vec::new(), 10);
    assert_eq!(full.unwrap_err(), LeaseError::ResourceExhausted);
}

#[test]
fn test_release_idempotence() {
    let conn = store::init_db(":memory:").expect("open in-memory store");
    let mut table = fresh_table(&conn, 8000, 8002, 300);

    table
        .allocate(&conn, "svc".to_string(), None, Vec::new(), 10)
        .expect("one allocation");
    let before = table.list_all().len();

    let missing = table.release(&conn, 8002);
    assert_eq!(missing.unwrap_err(), LeaseError::NotFound);
    assert_eq!(table.list_all().len(), before);

    table.release(&conn, 8000).expect("release the held port");
    let twice = table.release(&conn, 8000);
    assert_eq!(twice.unwrap_err(), LeaseError::NotFound);
}

#[test]
fn test_lookup_completeness() {
    let conn = store::init_db(":memory:").expect("open in-memory store");
    let mut table = fresh_table(&conn, 8000, 8010, 300);

    let mut web_ports = Vec::new();
    for _ in 0..3 {
        let lease = table
            .allocate(&conn, "web".to_string(), None, Vec::new(), 10)
            .expect("allocation for web");
        web_ports.push(lease.port);
    }
    table
        .allocate(&conn, "other".to_string(), None, Vec::new(), 10)
        .expect("allocation for other");

    let found = table.lookup_by_service(&"web".to_string());
    assert_eq!(found.service_name, "web");
    assert_eq!(found.all_ports.len(), 3);
    for p in &web_ports {
        assert!(found.all_ports.contains(p));
    }
    let representative = found.lease.expect("a representative lease");
    assert_eq!(representative.service_name, "web");
    assert_eq!(found.port, Some(representative.port));

    let empty = table.lookup_by_service(&"nothing".to_string());
    assert_eq!(empty.all_ports.len(), 0);
    assert!(empty.port.is_none());
    assert!(empty.lease.is_none());
}

#[test]
fn test_allocate_default_ttl() {
    let conn = store::init_db(":memory:").expect("open in-memory store");
    let mut table = fresh_table(&conn, 8000, 8002, 450);

    let lease = table
        .allocate(&conn, "svc".to_string(), None, Vec::new(), 10)
        .expect("allocation with the default time-to-live");
    assert_eq!(lease.ttl_seconds, 450);
    assert_eq!(lease.allocated_at, 10);
    assert_eq!(lease.last_heartbeat, 10);
}

#[test]
fn test_renew_not_found() {
    let conn = store::init_db(":memory:").expect("open in-memory store");
    let mut table = fresh_table(&conn, 8000, 8002, 300);

    let missing = table.renew(&conn, 8001, 50);
    assert_eq!(missing.unwrap_err(), LeaseError::NotFound);
}

#[test]
fn test_persistence_failure_leaves_no_trace() {
    let conn = store::init_db(":memory:").expect("open in-memory store");
    let mut table = fresh_table(&conn, 8000, 8002, 300);

    conn.execute_batch("DROP TABLE leases").expect("drop the backing table");

    let failed = table.allocate(&conn, "svc".to_string(), None, Vec::new(), 10);
    assert_eq!(failed.unwrap_err(), LeaseError::PersistenceFailure);
    assert_eq!(table.list_all().len(), 0);
}

#[test]
fn test_init_db_failure_is_persistence_failure() {
    let opened = store::init_db("/nonexistent-directory-for-leases/leases.db");
    match opened {
        Ok(_) => panic!("opening under a missing directory must fail"),
        Err(e) => assert_eq!(e, LeaseError::PersistenceFailure),
    }
}
