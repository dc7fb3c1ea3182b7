//! Outcomes of statements, as the repositories receive them from a store.

use crate::error::{CatalogError, CatalogErrorView};
use crate::seqs::views;
use crate::store_error::StoreFailure;
use vstd::prelude::*;

verus! {

/// The view of the outcome of a statement that yields one row.
pub open spec fn row_outcome<T: View>(o: Result<T, StoreFailure>) -> Result<T::V, StoreFailure> {
    match o {
        Ok(row) => Ok(row@),
        Err(f) => Err(f),
    }
}

/// The view of the outcome of a statement that yields a list of rows.
pub open spec fn rows_outcome<T: View>(o: Result<Vec<T>, StoreFailure>) -> Result<
    Seq<T::V>,
    StoreFailure,
> {
    match o {
        Ok(rows) => Ok(views(rows@)),
        Err(f) => Err(f),
    }
}

/// The error that stands for a failure which no rule of the calling operation names: a
/// broken foreign key is reported as such, everything else as a failure of the store.
pub open spec fn plain_failure(f: StoreFailure) -> CatalogErrorView {
    match f {
        StoreFailure::ForeignKeyViolation => CatalogErrorView::ForeignKeyViolation,
        _ => CatalogErrorView::SqlxError,
    }
}

/// The error for a failure which no rule of the calling operation names.
pub fn plain_error(f: StoreFailure) -> (e: CatalogError)
    ensures
        e@ == plain_failure(f),
{
    match f {
        StoreFailure::ForeignKeyViolation => CatalogError::ForeignKeyViolation,
        _ => CatalogError::SqlxError,
    }
}

/// Reports the outcome of a query that lists rows.
pub fn list_result<T>(o: Result<Vec<T>, StoreFailure>) -> (r: Result<Vec<T>, CatalogError>)
    ensures
        match o {
            Ok(rows) => r == Ok::<Vec<T>, CatalogError>(rows),
            Err(_) => r == Err::<Vec<T>, CatalogError>(CatalogError::SqlxError),
        },
{
    match o {
        Ok(rows) => Ok(rows),
        Err(_) => Err(CatalogError::SqlxError),
    }
}

/// Reports the outcome of a query that looks for one row.
pub fn lookup_result<T>(o: Result<T, StoreFailure>) -> (r: Result<Option<T>, CatalogError>)
    ensures
        match o {
            Ok(row) => r == Ok::<Option<T>, CatalogError>(Some(row)),
            Err(StoreFailure::RowNotFound) => r == Ok::<Option<T>, CatalogError>(None),
            Err(_) => r == Err::<Option<T>, CatalogError>(CatalogError::SqlxError),
        },
{
    match o {
        Ok(row) => Ok(Some(row)),
        Err(StoreFailure::RowNotFound) => Ok(None),
        Err(_) => Err(CatalogError::SqlxError),
    }
}

} // verus!
