//! Numbers for new inodes from a database, and from a counter in memory.

use crate::meta::store::{detailed, ErrorView, MetaError};
use vstd::prelude::*;
use vstd::string::*;

verus! {

/// What a query for one number gave.
#[derive(Debug, Clone)]
pub enum RowReply {
    /// The number.
    Value(i64),
    /// There was no row.
    NoRow,
    /// The row does not hold the number.
    Unreadable(String),
    /// The database failed.
    Failed(String),
}

/// Numbers from a sequence.
#[derive(Debug, Clone)]
pub struct PostgresIdGenerator {
    pub sequence_name: String,
}

impl PostgresIdGenerator {
    /// The generator over the usual sequence.
    pub fn new() -> (r: Self)
        ensures
            r.sequence_name@ == "slayerfs_inode_seq"@,
    {
        PostgresIdGenerator { sequence_name: String::from_str("slayerfs_inode_seq") }
    }

    /// The generator over another sequence.
    pub fn with_sequence_name(self, name: String) -> (r: Self)
        ensures
            r.sequence_name == name,
    {
        PostgresIdGenerator { sequence_name: name }
    }

    /// The statement that prepares the sequence. It starts at 2, since 1 is the root.
    pub fn initialize(&self) -> (r: String)
        ensures
            r@ == "CREATE SEQUENCE IF NOT EXISTS "@ + self.sequence_name@
                + " START 2 INCREMENT 1"@,
    {
        let mut r = detailed("CREATE SEQUENCE IF NOT EXISTS ", self.sequence_name.as_str());
        r.append(" START 2 INCREMENT 1");
        r
    }

    /// The query for the next number.
    pub fn next_id_query(&self) -> (r: String)
        ensures
            r@ == "SELECT nextval('"@ + self.sequence_name@ + "')"@,
    {
        let mut r = detailed("SELECT nextval('", self.sequence_name.as_str());
        r.append("')");
        r
    }

    /// The number that the query gave.
    pub fn next_id(reply: RowReply) -> (r: Result<i64, MetaError>)
        ensures
            match reply {
                RowReply::Value(id) => r == Ok::<i64, MetaError>(id),
                RowReply::NoRow => r matches Err(e) && e@ == ErrorView::Internal(
                    "Failed to generate ID"@,
                ),
                RowReply::Unreadable(why) => r matches Err(e) && e@ == ErrorView::Internal(
                    "Failed to extract ID: "@ + why@,
                ),
                RowReply::Failed(why) => r matches Err(e) && e@ == ErrorView::Database(why@),
            },
    {
        match reply {
            RowReply::Value(id) => Ok(id),
            RowReply::NoRow => Err(MetaError::Internal(String::from_str("Failed to generate ID"))),
            RowReply::Unreadable(why) => Err(
                MetaError::Internal(detailed("Failed to extract ID: ", why.as_str())),
            ),
            RowReply::Failed(why) => Err(MetaError::Database(why)),
        }
    }
}

/// Numbers from a counter table.
#[derive(Debug, Clone)]
pub struct SqliteIdGenerator;

impl SqliteIdGenerator {
    /// The statement that makes the table.
    pub fn table_statement() -> (r: &'static str)
        ensures
            r@
                == "CREATE TABLE IF NOT EXISTS inode_counter (id INTEGER PRIMARY KEY AUTOINCREMENT, created_at INTEGER DEFAULT (strftime('%s', 'now')))"@,
    {
        "CREATE TABLE IF NOT EXISTS inode_counter (id INTEGER PRIMARY KEY AUTOINCREMENT, created_at INTEGER DEFAULT (strftime('%s', 'now')))"
    }

    /// The query for the number of rows.
    pub fn count_query() -> (r: &'static str)
        ensures
            r@ == "SELECT COUNT(*) as cnt FROM inode_counter"@,
    {
        "SELECT COUNT(*) as cnt FROM inode_counter"
    }

    /// The statement that adds a row.
    pub fn insert_statement() -> (r: &'static str)
        ensures
            r@ == "INSERT INTO inode_counter DEFAULT VALUES"@,
    {
        "INSERT INTO inode_counter DEFAULT VALUES"
    }

    /// Whether a first row has to be added, given the number of rows.
    pub fn initialize(reply: RowReply) -> (r: Result<bool, MetaError>)
        ensures
            match reply {
                RowReply::Value(n) => r == Ok::<bool, MetaError>(n == 0),
                RowReply::NoRow => r matches Err(e) && e@ == ErrorView::Internal(
                    "Failed to query counter"@,
                ),
                RowReply::Unreadable(why) => r matches Err(e) && e@ == ErrorView::Internal(
                    "Failed to get count: "@ + why@,
                ),
                RowReply::Failed(why) => r matches Err(e) && e@ == ErrorView::Database(why@),
            },
    {
        match reply {
            RowReply::Value(n) => Ok(n == 0),
            RowReply::NoRow => Err(
                MetaError::Internal(String::from_str("Failed to query counter")),
            ),
            RowReply::Unreadable(why) => Err(
                MetaError::Internal(detailed("Failed to get count: ", why.as_str())),
            ),
            RowReply::Failed(why) => Err(MetaError::Database(why)),
        }
    }

    /// The number of a row that was added; `None` where another row has to be
    /// added, since 1 is the root.
    pub fn next_id(row: i64) -> (r: Option<i64>)
        ensures
            r == (if row <= 1 {
                None::<i64>
            } else {
                Some(row)
            }),
    {
        if row <= 1 {
            None
        } else {
            Some(row)
        }
    }
}

/// Numbers from a counter in memory.
#[derive(Debug, Clone)]
pub struct AtomicIdGenerator {
    pub counter: i64,
}

/// A number brought into the range of `i64` by wrapping around.
pub open spec fn wrapped(n: int) -> int {
    (n + 0x8000_0000_0000_0000) % 0x1_0000_0000_0000_0000 - 0x8000_0000_0000_0000
}

impl AtomicIdGenerator {
    /// A generator whose first number is `start`.
    pub fn new(start: i64) -> (r: Self)
        ensures
            r.counter == start,
    {
        AtomicIdGenerator { counter: start }
    }

    /// The next number. After the largest comes the smallest.
    pub fn next_id(&mut self) -> (r: i64)
        ensures
            r == old(self).counter,
            final(self).counter == wrapped(old(self).counter + 1),
            old(self).counter < i64::MAX ==> final(self).counter == old(self).counter + 1,
            old(self).counter == i64::MAX ==> final(self).counter == i64::MIN,
    {
        let id: i64 = self.counter;
        self.counter = if id == i64::MAX {
            i64::MIN
        } else {
            id + 1
        };
        id
    }
}

/// The counter after a number of calls.
pub open spec fn counter_after(start: i64, calls: nat) -> int
    decreases calls,
{
    if calls == 0 {
        start as int
    } else {
        wrapped(counter_after(start, (calls - 1) as nat) + 1)
    }
}

/// The counter runs through the numbers from its start on, wrapped around.
proof fn lemma_counter_after(start: i64, calls: nat)
    ensures
        counter_after(start, calls) == wrapped(start + calls),
    decreases calls,
{
    if calls > 0 {
        lemma_counter_after(start, (calls - 1) as nat);
    }
}

/// A counter gives no number twice, until it has given every number of its range.
pub proof fn law_counter_gives_each_number_once(start: i64, first: nat, second: nat)
    requires
        first < second,
        second - first < 0x1_0000_0000_0000_0000,
    ensures
        counter_after(start, first) != counter_after(start, second),
        start + second <= i64::MAX ==> counter_after(start, second) == start + second,
{
    lemma_counter_after(start, first);
    lemma_counter_after(start, second);
}

} // verus!
