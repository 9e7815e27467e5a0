//! The persistent store adapter: a durable mirror of the lease table.
//!
//! The store is an SQLite table with one row per port, accessed through a
//! handful of single-statement operations.  Each operation is one atomic
//! unit against the backing table.  The store is only a mirror: the
//! in-memory table is authoritative, and the rows are read back exactly
//! once, at startup, to rebuild it.

use vstd::prelude::*;
use crate::lease::{Lease, LeaseData};
use crate::messages::LeaseError;

verus! {

#[verifier::external_type_specification]
#[verifier::external_body]
pub struct ExConnection(rusqlite::Connection);

#[verifier::external_type_specification]
#[verifier::external_body]
pub struct ExSqliteError(rusqlite::Error);

/// One raw row of the store's lease table, exactly as loaded.  The
/// integer columns come back as SQLite's native signed integers; negative
/// values can only stem from foreign writes and are treated as spoiled.
pub struct LeaseRow {
    pub port: u16,
    pub service_name: String,
    pub allocated_at: i64,
    pub last_heartbeat: i64,
    pub ttl_seconds: i64,
    pub tags_json: String,
}

/// The JSON text that the tag list is stored as: a function of the tag
/// strings alone.
pub uninterp spec fn json_of_tags(tags: Seq<Seq<char>>) -> Seq<char>;

/// Relies on `rusqlite::Connection::open`: opens the SQLite database at
/// `path`, creating the file when absent; `":memory:"` opens a fresh
/// private in-memory database.
#[verifier::external_body]
fn open_connection(path: &str) -> (r: Result<rusqlite::Connection, rusqlite::Error>) {
    rusqlite::Connection::open(path)
}

/// Relies on `rusqlite::Connection::execute_batch` to create the lease
/// table when it does not exist yet.
#[verifier::external_body]
fn create_schema(conn: &rusqlite::Connection) -> (r: Result<(), rusqlite::Error>) {
    conn.execute_batch(
        "CREATE TABLE IF NOT EXISTS leases (
            port INTEGER PRIMARY KEY,
            service_name TEXT NOT NULL,
            allocated_at INTEGER NOT NULL,
            last_heartbeat INTEGER NOT NULL,
            ttl_seconds INTEGER NOT NULL,
            tags TEXT NOT NULL
        );",
    )
}

/// Relies on `rusqlite::Connection::execute` running a single-row
/// `INSERT OR REPLACE` keyed by `port`: one atomic upsert.
#[verifier::external_body]
fn upsert_row(
    conn: &rusqlite::Connection,
    port: u16,
    service_name: &String,
    allocated_at: i64,
    last_heartbeat: i64,
    ttl_seconds: i64,
    tags_json: &String,
) -> (r: Result<(), rusqlite::Error>) {
    match conn.execute(
        "INSERT OR REPLACE INTO leases
            (port, service_name, allocated_at, last_heartbeat, ttl_seconds, tags)
            VALUES (?1, ?2, ?3, ?4, ?5, ?6)",
        (port, service_name, allocated_at, last_heartbeat, ttl_seconds, tags_json),
    ) {
        Ok(_) => Ok(()),
        Err(e) => Err(e),
    }
}

/// Relies on `rusqlite::Connection::execute` running a single-row `DELETE`;
/// the affected-row count tells whether the row existed.
#[verifier::external_body]
fn delete_row(conn: &rusqlite::Connection, port: u16) -> (r: Result<usize, rusqlite::Error>) {
    conn.execute("DELETE FROM leases WHERE port = ?1", (port,))
}

/// Relies on `rusqlite::Connection::execute` running a single-row `UPDATE`
/// of the heartbeat column; the affected-row count tells whether the row
/// existed.
#[verifier::external_body]
fn update_heartbeat_row(conn: &rusqlite::Connection, port: u16, last_heartbeat: i64) -> (r: Result<
    usize,
    rusqlite::Error,
>) {
    conn.execute(
        "UPDATE leases SET last_heartbeat = ?1 WHERE port = ?2",
        (last_heartbeat, port),
    )
}

/// Relies on `rusqlite::Connection::prepare` and
/// `rusqlite::Statement::query_map` running one `SELECT` over the whole
/// lease table.  A row whose columns do not fit the expected types is
/// dropped: the store is only a mirror, and what cannot be read back cannot
/// be recovered.
#[verifier::external_body]
fn load_rows(conn: &rusqlite::Connection) -> (r: Result<Vec<LeaseRow>, rusqlite::Error>) {
    let mut stmt = conn.prepare(
        "SELECT port, service_name, allocated_at, last_heartbeat, ttl_seconds, tags FROM leases",
    )?;
    let rows = stmt.query_map([], |row| {
        Ok(LeaseRow {
            port: row.get(0)?,
            service_name: row.get(1)?,
            allocated_at: row.get(2)?,
            last_heartbeat: row.get(3)?,
            ttl_seconds: row.get(4)?,
            tags_json: row.get(5)?,
        })
    })?;
    Ok(rows.filter_map(|r| r.ok()).collect())
}

/// Relies on `serde_json::to_string`: the JSON array holding exactly the
/// given strings, a function of the tag strings alone.  Serializing a
/// vector of strings cannot fail.
#[verifier::external_body]
fn tags_to_json(tags: &Vec<String>) -> (r: String)
    ensures
        r@ == json_of_tags(tags.deep_view()),
{
    match serde_json::to_string(tags) {
        Ok(s) => s,
        Err(_) => String::new(),
    }
}

/// Relies on `serde_json::from_str`: parsing the JSON array that
/// `serde_json::to_string` wrote for a vector of strings yields that vector
/// back.  Any other text yields some vector, or an empty one.
#[verifier::external_body]
fn tags_from_json(s: &str) -> (r: Vec<String>)
    ensures
        forall|t: Seq<Seq<char>>| s@ == json_of_tags(t) ==> r.deep_view() == t,
{
    match serde_json::from_str(s) {
        Ok(v) => v,
        Err(_) => Vec::new(),
    }
}

/// Opens the store at `path` and makes sure the lease table exists.  A
/// failure here is fatal to the daemon: it does not start serving without
/// its durable mirror.
pub fn init_db(path: &str) -> (r: Result<rusqlite::Connection, LeaseError>)
    ensures
        r is Err ==> r == Err::<rusqlite::Connection, LeaseError>(LeaseError::PersistenceFailure),
{
    match open_connection(path) {
        Ok(conn) => match create_schema(&conn) {
            Ok(_) => Ok(conn),
            Err(_) => Err(LeaseError::PersistenceFailure),
        },
        Err(_) => Err(LeaseError::PersistenceFailure),
    }
}

/// Writes one lease through to the store as a single-row upsert.  A value
/// too large for the store's signed integer columns cannot be persisted and
/// fails the write.
pub fn save_lease(conn: &rusqlite::Connection, lease: &Lease) -> (r: Result<(), LeaseError>)
    ensures
        r is Err ==> r == Err::<(), LeaseError>(LeaseError::PersistenceFailure),
        lease.allocated_at > i64::MAX as u64 || lease.last_heartbeat > i64::MAX as u64
            || lease.ttl_seconds > i64::MAX as u64 ==> r is Err,
{
    if lease.allocated_at > i64::MAX as u64 || lease.last_heartbeat > i64::MAX as u64
        || lease.ttl_seconds > i64::MAX as u64 {
        return Err(LeaseError::PersistenceFailure);
    }
    let tags_json = tags_to_json(&lease.tags);
    match upsert_row(
        conn,
        lease.port,
        &lease.service_name,
        lease.allocated_at as i64,
        lease.last_heartbeat as i64,
        lease.ttl_seconds as i64,
        &tags_json,
    ) {
        Ok(_) => Ok(()),
        Err(_) => Err(LeaseError::PersistenceFailure),
    }
}

/// Deletes the store's row for `port`, telling whether one was there.
pub fn delete_lease(conn: &rusqlite::Connection, port: u16) -> (r: Result<bool, LeaseError>)
    ensures
        r is Err ==> r == Err::<bool, LeaseError>(LeaseError::PersistenceFailure),
{
    match delete_row(conn, port) {
        Ok(n) => Ok(n > 0),
        Err(_) => Err(LeaseError::PersistenceFailure),
    }
}

/// Stamps the store's row for `port` with a new heartbeat, telling whether
/// a row was there.
pub fn update_heartbeat(conn: &rusqlite::Connection, port: u16, last_heartbeat: u64) -> (r: Result<
    bool,
    LeaseError,
>)
    ensures
        r is Err ==> r == Err::<bool, LeaseError>(LeaseError::PersistenceFailure),
        last_heartbeat > i64::MAX as u64 ==> r is Err,
{
    if last_heartbeat > i64::MAX as u64 {
        return Err(LeaseError::PersistenceFailure);
    }
    match update_heartbeat_row(conn, port, last_heartbeat as i64) {
        Ok(n) => Ok(n > 0),
        Err(_) => Err(LeaseError::PersistenceFailure),
    }
}

/// A loaded row whose integer columns are all non-negative — as every row
/// this adapter itself wrote is.  A row failing this came from a foreign
/// write and is spoiled.
pub open spec fn row_intact(row: LeaseRow) -> bool {
    &&& row.allocated_at >= 0
    &&& row.last_heartbeat >= 0
    &&& row.ttl_seconds >= 0
}

/// How a lease recovered from a row relates to it: port, name, both
/// timestamps and the time-to-live are the row's columns, and the tags are
/// whatever tag list the stored JSON text encodes.
pub open spec fn row_recovered(row: LeaseRow, l: LeaseData) -> bool {
    &&& l.port == row.port
    &&& l.service_name == row.service_name@
    &&& l.allocated_at == row.allocated_at as u64
    &&& l.last_heartbeat == row.last_heartbeat as u64
    &&& l.ttl_seconds == row.ttl_seconds as u64
    &&& forall|t: Seq<Seq<char>>| row.tags_json@ == json_of_tags(t) ==> l.tags == t
}

/// The rows that survive loading: the intact ones, in row order.
pub open spec fn intact_rows(rows: Seq<LeaseRow>) -> Seq<LeaseRow>
    decreases rows.len(),
{
    if rows.len() == 0 {
        Seq::empty()
    } else if row_intact(rows.last()) {
        intact_rows(rows.drop_last()).push(rows.last())
    } else {
        intact_rows(rows.drop_last())
    }
}

/// Turns one loaded row back into a lease; a spoiled row yields nothing.
fn row_to_lease(row: &LeaseRow) -> (r: Option<Lease>)
    ensures
        r is Some <==> row_intact(*row),
        match r {
            Some(l) => row_recovered(*row, l@),
            None => true,
        },
{
    if row.allocated_at < 0 || row.last_heartbeat < 0 || row.ttl_seconds < 0 {
        return None;
    }
    let tags = tags_from_json(row.tags_json.as_str());
    Some(
        Lease {
            port: row.port,
            service_name: row.service_name.clone(),
            allocated_at: row.allocated_at as u64,
            last_heartbeat: row.last_heartbeat as u64,
            ttl_seconds: row.ttl_seconds as u64,
            tags,
        },
    )
}

/// Turns loaded rows back into leases: one lease per intact row, in row
/// order, each carrying its row's columns and the tag list its JSON text
/// encodes; spoiled rows are dropped.
pub fn rows_to_leases(rows: &Vec<LeaseRow>) -> (r: Vec<Lease>)
    ensures
        r@.len() == intact_rows(rows@).len(),
        forall|k: int|
            0 <= k < r@.len() ==> row_recovered(intact_rows(rows@)[k], (#[trigger] r@[k])@),
{
    let mut out: Vec<Lease> = Vec::new();
    let n = rows.len();
    let mut i: usize = 0;
    while i < n
        invariant
            n == rows@.len(),
            0 <= i <= n,
            out@.len() == intact_rows(rows@.subrange(0, i as int)).len(),
            forall|k: int|
                0 <= k < out@.len() ==> row_recovered(
                    intact_rows(rows@.subrange(0, i as int))[k],
                    (#[trigger] out@[k])@,
                ),
        decreases n - i,
    {
        proof {
            assert(rows@.subrange(0, i + 1 as int).drop_last() =~= rows@.subrange(0, i as int));
            assert(rows@.subrange(0, i + 1 as int).last() == rows@[i as int]);
        }
        match row_to_lease(&rows[i]) {
            Some(l) => out.push(l),
            None => {},
        }
        i += 1;
    }
    proof {
        assert(rows@.subrange(0, n as int) =~= rows@);
    }
    out
}

/// Loads every lease the store holds; used once, at startup, to rebuild
/// the in-memory table.  Whatever rows came back, the result is their
/// image under [`rows_to_leases`].
pub fn load_leases(conn: &rusqlite::Connection) -> (r: Result<Vec<Lease>, LeaseError>)
    ensures
        r is Err ==> r == Err::<Vec<Lease>, LeaseError>(LeaseError::PersistenceFailure),
{
    match load_rows(conn) {
        Ok(rows) => Ok(rows_to_leases(&rows)),
        Err(_) => Err(LeaseError::PersistenceFailure),
    }
}

/// Whether a stored row is expired at instant `now`: the table's own
/// expiry rule, with a spoiled row (a negative integer column) counting as
/// expired so that startup purges it.
pub open spec fn row_expired(row: LeaseRow, now: u64) -> bool {
    ||| row.allocated_at < 0
    ||| row.last_heartbeat < 0
    ||| row.ttl_seconds < 0
    ||| now > row.last_heartbeat + row.ttl_seconds
}

/// The ports of the expired rows among `rows`, in row order.
pub open spec fn expired_ports_of(rows: Seq<LeaseRow>, now: u64) -> Seq<u16>
    decreases rows.len(),
{
    if rows.len() == 0 {
        Seq::empty()
    } else if row_expired(rows.last(), now) {
        expired_ports_of(rows.drop_last(), now).push(rows.last().port)
    } else {
        expired_ports_of(rows.drop_last(), now)
    }
}

/// Selects from the given rows the ports of those expired at `now`.
pub fn expired_row_ports(rows: &Vec<LeaseRow>, now: u64) -> (r: Vec<u16>)
    ensures
        r@ == expired_ports_of(rows@, now),
{
    let mut r: Vec<u16> = Vec::new();
    let n = rows.len();
    let mut i: usize = 0;
    while i < n
        invariant
            n == rows@.len(),
            0 <= i <= n,
            r@ == expired_ports_of(rows@.subrange(0, i as int), now),
        decreases n - i,
    {
        let row = &rows[i];
        proof {
            assert(rows@.subrange(0, i + 1 as int).drop_last() =~= rows@.subrange(0, i as int));
            assert(rows@.subrange(0, i + 1 as int).last() == rows@[i as int]);
        }
        let spoiled = row.allocated_at < 0 || row.last_heartbeat < 0 || row.ttl_seconds < 0;
        if spoiled || now > (row.last_heartbeat as u64) + (row.ttl_seconds as u64) {
            r.push(row.port);
        }
        i += 1;
    }
    proof {
        assert(rows@.subrange(0, n as int) =~= rows@);
    }
    r
}

/// Deletes from the store every row expired at instant `now` and reports
/// the expired ports; used once, at startup, to purge what expired while
/// the process was down.
pub fn delete_expired(conn: &rusqlite::Connection, now: u64) -> (r: Result<Vec<u16>, LeaseError>)
    ensures
        r is Err ==> r == Err::<Vec<u16>, LeaseError>(LeaseError::PersistenceFailure),
{
    let rows = match load_rows(conn) {
        Ok(rows) => rows,
        Err(_) => {
            return Err(LeaseError::PersistenceFailure);
        },
    };
    let expired = expired_row_ports(&rows, now);
    let n = expired.len();
    let mut i: usize = 0;
    while i < n
        invariant
            n == expired@.len(),
            0 <= i <= n,
        decreases n - i,
    {
        match delete_row(conn, expired[i]) {
            Ok(_) => {},
            Err(_) => {
                return Err(LeaseError::PersistenceFailure);
            },
        }
        i += 1;
    }
    Ok(expired)
}

} // verus!
