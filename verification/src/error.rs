//! The errors that catalog operations report.

use crate::model::{ColumnType, NamespaceId, ObjectStoreId, ParquetFileId, PartitionId, TableId};
use crate::seqs::views;
use vstd::prelude::*;

verus! {

/// Why a catalog operation failed.
#[derive(Debug, PartialEq, Eq)]
#[allow(inconsistent_fields)]
pub enum CatalogError {
    /// A namespace of that name exists already.
    NameExists { name: String },
    /// The namespace holds a table of that name already.
    TableNameExists { name: String, namespace_id: NamespaceId },
    /// No namespace has that name.
    NamespaceNotFoundByName { name: String },
    /// The namespace holds as many tables as it may.
    TableCreateLimitError { table_name: String, namespace_id: NamespaceId },
    /// The table holds as many columns as it may.
    ColumnCreateLimitError { column_name: String, table_id: TableId },
    /// The column exists with another type than the one asked for.
    ColumnTypeMismatch { name: String, existing: ColumnType, new: ColumnType },
    /// No partition has that id.
    PartitionNotFound { id: PartitionId },
    /// No data file has that id.
    ParquetRecordNotFound { id: ParquetFileId },
    /// A data file with that content identifier exists already.
    FileExists { object_store_id: ObjectStoreId },
    /// A row refers to a row that does not exist.
    ForeignKeyViolation,
    /// The store failed in a way that the catalog does not interpret.
    SqlxError,
    /// The namespace could not be marked as deleted.
    CouldNotDeleteNamespace,
    /// The skipped compaction of that partition could not be recorded.
    CouldNotRecordSkippedCompaction { partition_id: PartitionId },
    /// The skipped compactions could not be listed.
    CouldNotListSkippedCompactions,
    /// The skipped compaction could not be deleted.
    CouldNotDeleteSkippedCompactions,
    /// The transaction could not be started.
    StartTransaction,
    /// The transaction could not be committed.
    FailedToCommit,
}

#[allow(inconsistent_fields)]
pub enum CatalogErrorView {
    NameExists { name: Seq<char> },
    TableNameExists { name: Seq<char>, namespace_id: NamespaceId },
    NamespaceNotFoundByName { name: Seq<char> },
    TableCreateLimitError { table_name: Seq<char>, namespace_id: NamespaceId },
    ColumnCreateLimitError { column_name: Seq<char>, table_id: TableId },
    ColumnTypeMismatch { name: Seq<char>, existing: ColumnType, new: ColumnType },
    PartitionNotFound { id: PartitionId },
    ParquetRecordNotFound { id: ParquetFileId },
    FileExists { object_store_id: ObjectStoreId },
    ForeignKeyViolation,
    SqlxError,
    CouldNotDeleteNamespace,
    CouldNotRecordSkippedCompaction { partition_id: PartitionId },
    CouldNotListSkippedCompactions,
    CouldNotDeleteSkippedCompactions,
    StartTransaction,
    FailedToCommit,
}

impl View for CatalogError {
    type V = CatalogErrorView;

    open spec fn view(&self) -> CatalogErrorView {
        match *self {
            CatalogError::NameExists { name } => CatalogErrorView::NameExists { name: name@ },
            CatalogError::TableNameExists {
                name,
                namespace_id,
            } => CatalogErrorView::TableNameExists { name: name@, namespace_id },
            CatalogError::NamespaceNotFoundByName {
                name,
            } => CatalogErrorView::NamespaceNotFoundByName { name: name@ },
            CatalogError::TableCreateLimitError {
                table_name,
                namespace_id,
            } => CatalogErrorView::TableCreateLimitError { table_name: table_name@, namespace_id },
            CatalogError::ColumnCreateLimitError {
                column_name,
                table_id,
            } => CatalogErrorView::ColumnCreateLimitError { column_name: column_name@, table_id },
            CatalogError::ColumnTypeMismatch {
                name,
                existing,
                new,
            } => CatalogErrorView::ColumnTypeMismatch { name: name@, existing, new },
            CatalogError::PartitionNotFound { id } => CatalogErrorView::PartitionNotFound { id },
            CatalogError::ParquetRecordNotFound {
                id,
            } => CatalogErrorView::ParquetRecordNotFound { id },
            CatalogError::FileExists {
                object_store_id,
            } => CatalogErrorView::FileExists { object_store_id },
            CatalogError::ForeignKeyViolation => CatalogErrorView::ForeignKeyViolation,
            CatalogError::SqlxError => CatalogErrorView::SqlxError,
            CatalogError::CouldNotDeleteNamespace => CatalogErrorView::CouldNotDeleteNamespace,
            CatalogError::CouldNotRecordSkippedCompaction {
                partition_id,
            } => CatalogErrorView::CouldNotRecordSkippedCompaction { partition_id },
            CatalogError::CouldNotListSkippedCompactions => {
                CatalogErrorView::CouldNotListSkippedCompactions
            },
            CatalogError::CouldNotDeleteSkippedCompactions => {
                CatalogErrorView::CouldNotDeleteSkippedCompactions
            },
            CatalogError::StartTransaction => CatalogErrorView::StartTransaction,
            CatalogError::FailedToCommit => CatalogErrorView::FailedToCommit,
        }
    }
}

/// The families into which the catalog's errors fall.
#[derive(Debug, Clone, Copy, PartialEq, Eq, Structural, Hash)]
pub enum ErrorKind {
    /// A unique key collided.
    AlreadyExists,
    /// A row was looked up by id or name and is missing.
    NotFound,
    /// A row refers to a row that does not exist.
    ForeignKeyViolation,
    /// A capacity of the schema is used up.
    LimitExceeded,
    /// A column was defined again with another type.
    TypeMismatch,
    /// The multi-statement transaction could not start or commit.
    TransactionFailed,
    /// The store failed otherwise.
    Store,
}

impl CatalogErrorView {
    /// The family of an error.
    pub open spec fn kind(self) -> ErrorKind {
        match self {
            CatalogErrorView::NameExists { .. } => ErrorKind::AlreadyExists,
            CatalogErrorView::TableNameExists { .. } => ErrorKind::AlreadyExists,
            CatalogErrorView::FileExists { .. } => ErrorKind::AlreadyExists,
            CatalogErrorView::NamespaceNotFoundByName { .. } => ErrorKind::NotFound,
            CatalogErrorView::PartitionNotFound { .. } => ErrorKind::NotFound,
            CatalogErrorView::ParquetRecordNotFound { .. } => ErrorKind::NotFound,
            CatalogErrorView::ForeignKeyViolation => ErrorKind::ForeignKeyViolation,
            CatalogErrorView::TableCreateLimitError { .. } => ErrorKind::LimitExceeded,
            CatalogErrorView::ColumnCreateLimitError { .. } => ErrorKind::LimitExceeded,
            CatalogErrorView::ColumnTypeMismatch { .. } => ErrorKind::TypeMismatch,
            CatalogErrorView::StartTransaction => ErrorKind::TransactionFailed,
            CatalogErrorView::FailedToCommit => ErrorKind::TransactionFailed,
            CatalogErrorView::SqlxError => ErrorKind::Store,
            CatalogErrorView::CouldNotDeleteNamespace => ErrorKind::Store,
            CatalogErrorView::CouldNotRecordSkippedCompaction { .. } => ErrorKind::Store,
            CatalogErrorView::CouldNotListSkippedCompactions => ErrorKind::Store,
            CatalogErrorView::CouldNotDeleteSkippedCompactions => ErrorKind::Store,
        }
    }
}

impl CatalogError {
    /// The family of the error.
    pub fn kind(&self) -> (k: ErrorKind)
        ensures
            k == self@.kind(),
    {
        match self {
            CatalogError::NameExists { .. } => ErrorKind::AlreadyExists,
            CatalogError::TableNameExists { .. } => ErrorKind::AlreadyExists,
            CatalogError::FileExists { .. } => ErrorKind::AlreadyExists,
            CatalogError::NamespaceNotFoundByName { .. } => ErrorKind::NotFound,
            CatalogError::PartitionNotFound { .. } => ErrorKind::NotFound,
            CatalogError::ParquetRecordNotFound { .. } => ErrorKind::NotFound,
            CatalogError::ForeignKeyViolation => ErrorKind::ForeignKeyViolation,
            CatalogError::TableCreateLimitError { .. } => ErrorKind::LimitExceeded,
            CatalogError::ColumnCreateLimitError { .. } => ErrorKind::LimitExceeded,
            CatalogError::ColumnTypeMismatch { .. } => ErrorKind::TypeMismatch,
            CatalogError::StartTransaction => ErrorKind::TransactionFailed,
            CatalogError::FailedToCommit => ErrorKind::TransactionFailed,
            CatalogError::SqlxError => ErrorKind::Store,
            CatalogError::CouldNotDeleteNamespace => ErrorKind::Store,
            CatalogError::CouldNotRecordSkippedCompaction { .. } => ErrorKind::Store,
            CatalogError::CouldNotListSkippedCompactions => ErrorKind::Store,
            CatalogError::CouldNotDeleteSkippedCompactions => ErrorKind::Store,
        }
    }
}

/// Why a compare-and-swap did not take effect.
#[derive(Debug, PartialEq, Eq)]
pub enum CasFailure<T> {
    /// The stored value differed from the expected one. The value carried is the stored
    /// value as it was read after the swap was refused; another writer may have changed
    /// it since.
    ValueMismatch(T),
    /// The swap or the read that followed it failed.
    QueryError(CatalogError),
}

/// The view of the failure of a compare-and-swap on a sort key.
pub enum CasFailureView {
    ValueMismatch(Seq<Seq<char>>),
    QueryError(CatalogErrorView),
}

/// The view of a result that carries one row.
pub open spec fn result_view<T: View>(r: Result<T, CatalogError>) -> Result<
    T::V,
    CatalogErrorView,
> {
    match r {
        Ok(t) => Ok(t@),
        Err(e) => Err(e@),
    }
}

/// The view of a result that carries a list of rows.
pub open spec fn result_views<T: View>(r: Result<Vec<T>, CatalogError>) -> Result<
    Seq<T::V>,
    CatalogErrorView,
> {
    match r {
        Ok(v) => Ok(views(v@)),
        Err(e) => Err(e@),
    }
}

/// The view of a result that carries a row or nothing.
pub open spec fn result_option_view<T: View>(r: Result<Option<T>, CatalogError>) -> Result<
    Option<T::V>,
    CatalogErrorView,
> {
    match r {
        Ok(Some(t)) => Ok(Some(t@)),
        Ok(None) => Ok(None),
        Err(e) => Err(e@),
    }
}

/// The view of a result that carries plain values.
pub open spec fn result_plain<T>(r: Result<T, CatalogError>) -> Result<T, CatalogErrorView> {
    match r {
        Ok(t) => Ok(t),
        Err(e) => Err(e@),
    }
}

/// The view of a result that carries a list of plain values.
pub open spec fn result_seq<T>(r: Result<Vec<T>, CatalogError>) -> Result<
    Seq<T>,
    CatalogErrorView,
> {
    match r {
        Ok(v) => Ok(v@),
        Err(e) => Err(e@),
    }
}

} // verus!
