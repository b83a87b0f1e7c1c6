//! The trusted boundary to the embedded relational engine. Each wrapper
//! holds exactly one call into rusqlite and the conversions around it;
//! nothing about the file's content is assumed — every value read from disk
//! flows into verified validation, and the store handle treats the file as a
//! durability mirror of the verified in-memory content.

use rusqlite::types::{Value, ValueRef};
use vstd::prelude::*;

verus! {

/// Declared so the embedded engine's connection can live inside the store
/// handle.
#[verifier::external_type_specification]
#[verifier::external_body]
pub struct ExSqliteConnection(rusqlite::Connection);

/// A plain value bound into, or read from, one SQL column.
pub enum SqlData {
    Null,
    Int(i64),
    Text(String),
    Blob(Vec<u8>),
}

/// A failure of the embedded engine: its message, and whether it was a
/// constraint violation — the class the error-code translation keys on.
pub struct SqliteFailure {
    pub constraint_violation: bool,
    pub message: String,
}

/// Reports whether an engine failure is a constraint violation; these are
/// the failures the repository translates into its AlreadyExists family.
pub fn is_constraint_violation(f: &SqliteFailure) -> (r: bool)
    ensures
        r == f.constraint_violation,
{
    f.constraint_violation
}

/// Relies on rusqlite::Connection::open: opens or creates the store file
/// `catalog` under the data directory.
#[verifier::external_body]
pub fn sqlite_open(data_dir_path: &str) -> (r: Result<rusqlite::Connection, String>)
{
    rusqlite::Connection::open(std::path::Path::new(data_dir_path).join("catalog")).map_err(
        |e| format!("{}", e),
    )
}

/// Relies on rusqlite::Connection::open_in_memory: a fresh private store
/// with no file behind it.
#[verifier::external_body]
pub fn sqlite_open_in_memory() -> (r: Result<rusqlite::Connection, String>)
{
    rusqlite::Connection::open_in_memory().map_err(|e| format!("{}", e))
}

/// Relies on rusqlite::Connection::execute_batch: runs a statement batch.
#[verifier::external_body]
pub fn sqlite_exec_batch(conn: &rusqlite::Connection, sql: &str) -> (r: Result<(), String>)
{
    conn.execute_batch(sql).map_err(|e| format!("{}", e))
}

/// Relies on rusqlite::Connection::execute: runs one parameterized
/// statement, returning the number of rows it changed.
#[verifier::external_body]
pub fn sqlite_exec(conn: &rusqlite::Connection, sql: &str, params: Vec<SqlData>) -> (r: Result<
    usize,
    SqliteFailure,
>)
{
    let values: Vec<Value> = params.into_iter().map(|p| match p {
        SqlData::Null => Value::Null,
        SqlData::Int(i) => Value::Integer(i),
        SqlData::Text(s) => Value::Text(s),
        SqlData::Blob(b) => Value::Blob(b),
    }).collect();
    conn.execute(sql, rusqlite::params_from_iter(values)).map_err(|e| SqliteFailure {
        constraint_violation: matches!(
            &e,
            rusqlite::Error::SqliteFailure(err, _)
                if err.code == rusqlite::ErrorCode::ConstraintViolation
        ),
        message: format!("{}", e),
    })
}

/// Relies on rusqlite::Connection::query_row: reads one integer (a header
/// or a counter); what comes back is whatever the file holds.
#[verifier::external_body]
pub fn sqlite_query_i64(conn: &rusqlite::Connection, sql: &str) -> (r: Result<i64, String>)
{
    conn.query_row(sql, [], |row| row.get::<_, i64>(0)).map_err(|e| format!("{}", e))
}

/// Relies on rusqlite::Statement::query_map: reads all rows of a query,
/// each column as a plain value; what comes back is whatever the file holds.
#[verifier::external_body]
pub fn sqlite_query_rows(conn: &rusqlite::Connection, sql: &str) -> (r: Result<
    Vec<Vec<SqlData>>,
    String,
>)
{
    let mut stmt = conn.prepare(sql).map_err(|e| format!("{}", e))?;
    let ncols = stmt.column_count();
    let mapped = stmt.query_map([], |row| {
        (0..ncols).map(|c| Ok(match row.get_ref(c)? {
            ValueRef::Integer(i) => SqlData::Int(i),
            ValueRef::Text(t) => SqlData::Text(String::from_utf8_lossy(t).into_owned()),
            ValueRef::Blob(b) => SqlData::Blob(b.to_vec()),
            _ => SqlData::Null,
        })).collect()
    }).map_err(|e| format!("{}", e))?;
    let out: Result<Vec<Vec<SqlData>>, rusqlite::Error> = mapped.collect();
    out.map_err(|e| format!("{}", e))
}

} // verus!
