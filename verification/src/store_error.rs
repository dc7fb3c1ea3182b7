//! What the catalog reads out of a failure that the store's driver reports.

use vstd::prelude::*;

verus! {

/// The error of the driver, `sqlx::Error`. The catalog carries it and reads it through
/// the two functions below only.
#[verifier::external_type_specification]
#[verifier::external_body]
pub struct ExSqlxError(sqlx::Error);

/// The result code that the database engine attached to a driver error: what
/// `sqlx::error::DatabaseError::code` returns for the variant `Database`, and nothing for
/// any other variant.
pub uninterp spec fn database_code(e: sqlx::Error) -> Option<Seq<char>>;

/// Whether a driver error is the variant `RowNotFound`: a statement that must yield a row
/// yielded none.
pub uninterp spec fn row_not_found(e: sqlx::Error) -> bool;

/// The error code returned by SQLite for a unique constraint violation.
pub const SQLITE_UNIQUE_VIOLATION: &'static str = "2067";

/// Error code returned by SQLite for a foreign key constraint violation.
pub const SQLITE_FK_VIOLATION: &'static str = "787";

/// Result code of SQLite for a violated uniqueness constraint.
pub open spec fn unique_violation_code() -> Seq<char> {
    seq!['2', '0', '6', '7']
}

/// Result code of SQLite for a violated foreign-key constraint.
pub open spec fn fk_violation_code() -> Seq<char> {
    seq!['7', '8', '7']
}

/// Reads the engine's result code from `sqlx::Error`: for the variant `Database` it is what
/// `sqlx::error::DatabaseError::code` returns, for every other variant there is none.
#[verifier::external_body]
fn engine_code(e: &sqlx::Error) -> (code: Option<String>)
    ensures
        code.deep_view() == database_code(*e),
{
    match e {
        sqlx::Error::Database(inner) => match inner.code() {
            Some(code) => Some(code.into_owned()),
            None => None,
        },
        _ => None,
    }
}

/// Tells the variant `RowNotFound` of `sqlx::Error` from the others.
#[verifier::external_body]
fn no_row(e: &sqlx::Error) -> (b: bool)
    ensures
        b == row_not_found(*e),
{
    match e {
        sqlx::Error::RowNotFound => true,
        _ => false,
    }
}

/// Returns true if `e` is a unique constraint violation error.
pub fn is_unique_violation(e: &sqlx::Error) -> (b: bool)
    ensures
        b == (database_code(*e) == Some(unique_violation_code())),
{
    match engine_code(e) {
        Some(code) => {
            proof {
                reveal_strlit("2067");
            }
            let want = SQLITE_UNIQUE_VIOLATION.to_string();
            assert(want@ =~= unique_violation_code());
            code == want
        },
        None => false,
    }
}

/// Returns true if `e` is a foreign-key constraint violation error.
pub fn is_fk_violation(e: &sqlx::Error) -> (b: bool)
    ensures
        b == (database_code(*e) == Some(fk_violation_code())),
{
    match engine_code(e) {
        Some(code) => {
            proof {
                reveal_strlit("787");
            }
            let want = SQLITE_FK_VIOLATION.to_string();
            assert(want@ =~= fk_violation_code());
            code == want
        },
        None => false,
    }
}

/// Returns true if `e` says that a statement which must yield a row yielded none.
pub fn is_row_not_found(e: &sqlx::Error) -> (b: bool)
    ensures
        b == row_not_found(*e),
{
    no_row(e)
}

/// The ways in which a statement can fail, as far as the catalog tells them apart.
#[derive(Debug, Clone, Copy, PartialEq, Eq, Structural, Hash)]
pub enum StoreFailure {
    /// The statement must yield a row and yielded none.
    RowNotFound,
    /// The statement would have broken a uniqueness constraint.
    UniqueViolation,
    /// The statement would have left a row that refers to a missing row.
    ForeignKeyViolation,
    /// Any other failure.
    Other,
}

/// The failure that a driver error stands for. A missing row is recognised first, then a
/// violated uniqueness constraint, then a violated foreign key. A constraint is
/// recognised by the code that the engine attached to the error and by nothing else: a
/// failure that reaches the driver without that code is any other failure.
pub open spec fn failure_of(e: sqlx::Error) -> StoreFailure {
    if row_not_found(e) {
        StoreFailure::RowNotFound
    } else if database_code(e) == Some(unique_violation_code()) {
        StoreFailure::UniqueViolation
    } else if database_code(e) == Some(fk_violation_code()) {
        StoreFailure::ForeignKeyViolation
    } else {
        StoreFailure::Other
    }
}

/// Classifies a driver error.
pub fn classify(e: &sqlx::Error) -> (f: StoreFailure)
    ensures
        f == failure_of(*e),
{
    if is_row_not_found(e) {
        StoreFailure::RowNotFound
    } else if is_unique_violation(e) {
        StoreFailure::UniqueViolation
    } else if is_fk_violation(e) {
        StoreFailure::ForeignKeyViolation
    } else {
        StoreFailure::Other
    }
}

/// Classifies the outcome of a statement: a row is handed on, an error is classified.
pub fn classify_outcome<T>(outcome: Result<T, sqlx::Error>) -> (r: Result<T, StoreFailure>)
    ensures
        match outcome {
            Ok(row) => r == Ok::<T, StoreFailure>(row),
            Err(e) => r == Err::<T, StoreFailure>(failure_of(e)),
        },
{
    match outcome {
        Ok(row) => Ok(row),
        Err(e) => Err(classify(&e)),
    }
}

} // verus!
