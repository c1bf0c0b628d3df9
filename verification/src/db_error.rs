//! How a database failure is reported to the rest of the application.

use vstd::prelude::*;

use crate::text::{decimal, push_decimal, push_str, str_eq};

verus! {

/// PostgreSQL error code `read_only_sql_transaction`.
pub const READ_ONLY_SQL_TRANSACTION: &'static str = "25006";

/// PostgreSQL error code `unique_violation`.
pub const UNIQUE_VIOLATION: &'static str = "23505";

/// PostgreSQL error code `foreign_key_violation`.
pub const FOREIGN_KEY_VIOLATION: &'static str = "23503";

/// PostgreSQL error code `serialization_failure`.
pub const SERIALIZATION_FAILURE: &'static str = "40001";

/// PostgreSQL error code `query_canceled`.
pub const QUERY_CANCELED: &'static str = "57014";

/// A storage failure as the application sees it.
#[derive(Clone, Debug, PartialEq)]
pub enum RepositoryError {
    NotFound,
    Connection(String),
    Constraint(String),
    Database(String),
    ReadOnly,
    Conflict,
    QueryCanceled,
}

/// The database-agnostic classification of a failed statement.
#[derive(Clone, Debug, PartialEq)]
pub enum SqlError {
    UniqueConstraintViolation(String),
    ForeignKeyConstraintViolation(String),
    /// Any other recognised SQL error.
    Other,
}

/// What a failed database call tells about itself.
#[derive(Clone, Debug, PartialEq)]
pub struct DbFailure {
    /// The error's display text.
    pub message: String,
    /// The connection was lost (I/O failure, pool timeout, pool closed) or
    /// no connection could be acquired.
    pub connection_lost: bool,
    /// The database-agnostic classification, when there is one.
    pub sql_error: Option<SqlError>,
    /// For a failed query or statement that the database rejected: its
    /// error code, when it gave one, and its message.
    pub database_error: Option<(String, String)>,
}

pub open spec fn fk_message(m: Seq<char>) -> Seq<char> {
    "Foreign key violation: "@ + m
}

/// The text a report carries, where the kind of report has one.
pub open spec fn report_text(f: DbFailure) -> Option<Seq<char>> {
    if f.connection_lost {
        Some(f.message@)
    } else {
        match f.sql_error {
            Some(SqlError::UniqueConstraintViolation(m)) => Some(m@),
            Some(SqlError::ForeignKeyConstraintViolation(m)) => Some(fk_message(m@)),
            Some(SqlError::Other) => Some(f.message@),
            None => match f.database_error {
                Some((code, m)) => if code@ == UNIQUE_VIOLATION@ {
                    Some(m@)
                } else if code@ == FOREIGN_KEY_VIOLATION@ {
                    Some(fk_message(m@))
                } else if code@ == READ_ONLY_SQL_TRANSACTION@ || code@ == SERIALIZATION_FAILURE@ || code@
                    == QUERY_CANCELED@ {
                    None
                } else {
                    Some(f.message@)
                },
                None => Some(f.message@),
            },
        }
    }
}

/// The kind of report, without its text.
pub enum ReportKind {
    Connection,
    Constraint,
    Database,
    ReadOnly,
    Conflict,
    QueryCanceled,
    NotFound,
}

pub open spec fn kind_of(e: RepositoryError) -> ReportKind {
    match e {
        RepositoryError::NotFound => ReportKind::NotFound,
        RepositoryError::Connection(_) => ReportKind::Connection,
        RepositoryError::Constraint(_) => ReportKind::Constraint,
        RepositoryError::Database(_) => ReportKind::Database,
        RepositoryError::ReadOnly => ReportKind::ReadOnly,
        RepositoryError::Conflict => ReportKind::Conflict,
        RepositoryError::QueryCanceled => ReportKind::QueryCanceled,
    }
}

pub open spec fn text_of(e: RepositoryError) -> Option<Seq<char>> {
    match e {
        RepositoryError::Connection(m) => Some(m@),
        RepositoryError::Constraint(m) => Some(m@),
        RepositoryError::Database(m) => Some(m@),
        _ => None,
    }
}

pub open spec fn kind_spec(f: DbFailure) -> ReportKind {
    if f.connection_lost {
        ReportKind::Connection
    } else {
        match f.sql_error {
            Some(SqlError::UniqueConstraintViolation(_)) => ReportKind::Constraint,
            Some(SqlError::ForeignKeyConstraintViolation(_)) => ReportKind::Constraint,
            Some(SqlError::Other) => ReportKind::Database,
            None => match f.database_error {
                Some((code, _)) => if code@ == READ_ONLY_SQL_TRANSACTION@ {
                    ReportKind::ReadOnly
                } else if code@ == UNIQUE_VIOLATION@ || code@ == FOREIGN_KEY_VIOLATION@ {
                    ReportKind::Constraint
                } else if code@ == SERIALIZATION_FAILURE@ {
                    ReportKind::Conflict
                } else if code@ == QUERY_CANCELED@ {
                    ReportKind::QueryCanceled
                } else {
                    ReportKind::Database
                },
                None => ReportKind::Database,
            },
        }
    }
}

proof fn lemma_codes_distinct()
    ensures
        READ_ONLY_SQL_TRANSACTION@ != UNIQUE_VIOLATION@,
        READ_ONLY_SQL_TRANSACTION@ != FOREIGN_KEY_VIOLATION@,
        READ_ONLY_SQL_TRANSACTION@ != SERIALIZATION_FAILURE@,
        READ_ONLY_SQL_TRANSACTION@ != QUERY_CANCELED@,
        UNIQUE_VIOLATION@ != FOREIGN_KEY_VIOLATION@,
        UNIQUE_VIOLATION@ != SERIALIZATION_FAILURE@,
        UNIQUE_VIOLATION@ != QUERY_CANCELED@,
        FOREIGN_KEY_VIOLATION@ != SERIALIZATION_FAILURE@,
        FOREIGN_KEY_VIOLATION@ != QUERY_CANCELED@,
        SERIALIZATION_FAILURE@ != QUERY_CANCELED@,
{
    reveal_strlit("25006");
    reveal_strlit("23505");
    reveal_strlit("23503");
    reveal_strlit("40001");
    reveal_strlit("57014");
    assert(READ_ONLY_SQL_TRANSACTION@[1] != UNIQUE_VIOLATION@[1]);
    assert(READ_ONLY_SQL_TRANSACTION@[1] != FOREIGN_KEY_VIOLATION@[1]);
    assert(READ_ONLY_SQL_TRANSACTION@[0] != SERIALIZATION_FAILURE@[0]);
    assert(READ_ONLY_SQL_TRANSACTION@[0] != QUERY_CANCELED@[0]);
    assert(UNIQUE_VIOLATION@[4] != FOREIGN_KEY_VIOLATION@[4]);
    assert(UNIQUE_VIOLATION@[0] != SERIALIZATION_FAILURE@[0]);
    assert(UNIQUE_VIOLATION@[0] != QUERY_CANCELED@[0]);
    assert(FOREIGN_KEY_VIOLATION@[0] != SERIALIZATION_FAILURE@[0]);
    assert(FOREIGN_KEY_VIOLATION@[0] != QUERY_CANCELED@[0]);
    assert(SERIALIZATION_FAILURE@[0] != QUERY_CANCELED@[0]);
}

/// Turns a database failure into the report the application sees: a lost
/// connection, a violated constraint (with a "Foreign key violation: "
/// prefix for foreign keys), a read-only transaction, a serialization
/// conflict, a cancelled query, or a generic database error carrying the
/// failure's text.
pub fn handle_dberr(error: DbFailure) -> (r: RepositoryError)
    ensures
        kind_of(r) == kind_spec(error),
        text_of(r) == report_text(error),
{
    proof {
        lemma_codes_distinct();
    }
    if error.connection_lost {
        return RepositoryError::Connection(error.message);
    }
    match error.sql_error {
        Some(SqlError::UniqueConstraintViolation(m)) => {
            return RepositoryError::Constraint(m);
        },
        Some(SqlError::ForeignKeyConstraintViolation(m)) => {
            let mut s = String::from_str("Foreign key violation: ");
            push_str(&mut s, m.as_str());
            return RepositoryError::Constraint(s);
        },
        Some(SqlError::Other) => {
            return RepositoryError::Database(error.message);
        },
        None => {},
    }
    match error.database_error {
        Some((code, m)) => {
            if str_eq(code.as_str(), READ_ONLY_SQL_TRANSACTION) {
                RepositoryError::ReadOnly
            } else if str_eq(code.as_str(), UNIQUE_VIOLATION) {
                RepositoryError::Constraint(m)
            } else if str_eq(code.as_str(), FOREIGN_KEY_VIOLATION) {
                let mut s = String::from_str("Foreign key violation: ");
                push_str(&mut s, m.as_str());
                RepositoryError::Constraint(s)
            } else if str_eq(code.as_str(), SERIALIZATION_FAILURE) {
                RepositoryError::Conflict
            } else if str_eq(code.as_str(), QUERY_CANCELED) {
                RepositoryError::QueryCanceled
            } else {
                RepositoryError::Database(error.message)
            }
        },
        None => RepositoryError::Database(error.message),
    }
}

/// Why a repository call was refused or failed.
#[derive(Clone, Debug, PartialEq)]
pub enum StoreError {
    /// An id of zero was passed where a stored row is meant.
    InvalidId(u64),
    /// A page size below one.
    InvalidPageSize(u64),
    Validation(String),
    Infrastructure(String),
    Repository(RepositoryError),
}

/// Ids start at one: zero names no row.
pub fn require_id(id: u64) -> (r: Result<(), StoreError>)
    ensures
        r == (if id == 0 { Err(StoreError::InvalidId(id)) } else { Ok(()) }),
{
    if id == 0 {
        return Err(StoreError::InvalidId(id));
    }
    Ok(())
}

/// Optimistic locking: a change applies only to the version it was read at.
pub fn check_version(stored: i64, expected: u64) -> (r: Result<(), StoreError>)
    ensures
        r == (if stored == expected as i64 { Ok(()) } else { Err(StoreError::Repository(RepositoryError::Conflict)) }),
{
    if stored != expected as i64 {
        return Err(StoreError::Repository(RepositoryError::Conflict));
    }
    Ok(())
}

/// The characters of a signed decimal number.
pub open spec fn signed_decimal(n: int) -> Seq<char> {
    if n < 0 {
        "-"@ + decimal((-n) as nat)
    } else {
        decimal(n as nat)
    }
}

/// Appends a signed number in decimal.
pub fn push_signed(s: &mut String, n: i64)
    ensures
        final(s)@ == old(s)@ + signed_decimal(n as int),
{
    if n < 0 {
        push_str(s, "-");
        let m: u64 = if n == i64::MIN { 9_223_372_036_854_775_808u64 } else { (-n) as u64 };
        assert(m == -(n as int));
        push_decimal(s, m);
    } else {
        push_decimal(s, n as u64);
    }
}

/// A guarded update must touch exactly the one row it names; otherwise the
/// row is gone or was changed meanwhile.
pub fn check_rows_affected(operation: &str, id: i64, rows_affected: u64) -> (r: Result<(), StoreError>)
    ensures
        rows_affected == 1 ==> r is Ok,
        rows_affected != 1 ==> (r matches Err(StoreError::Infrastructure(m)) && m@ == operation@ + "("@
            + signed_decimal(id as int) + ") affected "@ + decimal(rows_affected as nat)
            + " rows — version conflict or row missing"@),
{
    if rows_affected == 1 {
        return Ok(());
    }
    let mut m = String::from_str(operation);
    push_str(&mut m, "(");
    push_signed(&mut m, id);
    push_str(&mut m, ") affected ");
    push_decimal(&mut m, rows_affected);
    push_str(&mut m, " rows — version conflict or row missing");
    Err(StoreError::Infrastructure(m))
}

} // verus!
