//! Basic definitions shared by database query helpers: the kind of
//! connection a query runs over, and the outcome of a write query.

use vstd::prelude::*;
use vstd::string::StringExecFns;

verus! {

/// Enum that generalizes over the supported kinds of database
/// connections. The live handles themselves (an in-memory or on-disk
/// Sqlite database, a Mysql client) are transport capabilities owned by
/// the embedding program; this descriptor records which backend a
/// connection speaks to.
#[derive(Clone)]
pub enum Connection {
    /// A connection to a Sqlite database, useful for testing or local
    /// use cases.
    Sqlite,
    /// A connection to a Mysql-based database.
    Mysql,
}

impl Connection {
    /// The backend's name, as shown when a connection is printed.
    pub fn describe(&self) -> (r: String)
        ensures
            self is Sqlite ==> r@ == "Sqlite"@,
            self is Mysql ==> r@ == "Mysql"@,
    {
        match self {
            Connection::Sqlite => String::from_str("Sqlite"),
            Connection::Mysql => String::from_str("Mysql"),
        }
    }
}

/// Value returned from a `write` type of query.
pub struct WriteResult {
    last_insert_id: Option<u64>,
    affected_rows: u64,
}

impl WriteResult {
    /// The id of the last inserted row, if any.
    pub closed spec fn spec_last_insert_id(&self) -> Option<u64> {
        self.last_insert_id
    }

    /// The number of rows the write affected.
    pub closed spec fn spec_affected_rows(&self) -> u64 {
        self.affected_rows
    }

    /// Packs the outcome of a write query.
    pub fn new(last_insert_id: Option<u64>, affected_rows: u64) -> (r: Self)
        ensures
            r.spec_last_insert_id() == last_insert_id,
            r.spec_affected_rows() == affected_rows,
    {
        WriteResult { last_insert_id, affected_rows }
    }

    /// Return the id of last inserted row if any.
    pub fn last_insert_id(&self) -> (r: Option<u64>)
        ensures
            r == self.spec_last_insert_id(),
    {
        self.last_insert_id
    }

    /// Return number of rows affected by the `write` query.
    pub fn affected_rows(&self) -> (r: u64)
        ensures
            r == self.spec_affected_rows(),
    {
        self.affected_rows
    }
}

} // verus!
