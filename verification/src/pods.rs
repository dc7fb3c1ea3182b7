//! Rows in the shape in which the store hands them out, and what they stand for.

use crate::files::{ColumnSet, ParquetFile, ParquetFileView};
use crate::model::{
    ColumnId, CompactionLevel, NamespaceId, ObjectStoreId, ParquetFileId, PartitionId, TableId,
    Timestamp,
};
use crate::rows::{string_views, Partition, PartitionKey, PartitionView};
use vstd::prelude::*;

verus! {

/// A partition as the store hands it out.
#[derive(Debug, PartialEq, Eq)]
pub struct PartitionPod {
    pub id: PartitionId,
    pub table_id: TableId,
    pub partition_key: PartitionKey,
    /// The sort key as it was decoded from its persisted form.
    pub sort_key: Vec<String>,
    pub new_file_at: Option<Timestamp>,
}

/// A data file as the store hands it out.
#[derive(Debug, PartialEq, Eq)]
pub struct ParquetFilePod {
    pub id: ParquetFileId,
    pub namespace_id: NamespaceId,
    pub table_id: TableId,
    pub partition_id: PartitionId,
    pub object_store_id: ObjectStoreId,
    pub min_time: Timestamp,
    pub max_time: Timestamp,
    pub to_delete: Option<Timestamp>,
    pub file_size_bytes: i64,
    pub row_count: i64,
    pub compaction_level: CompactionLevel,
    pub created_at: Timestamp,
    /// The numbers of the column ids as they were decoded from their persisted form, in
    /// any order.
    pub column_set: Vec<i64>,
    pub max_l0_created_at: Timestamp,
}

impl Partition {
    /// The partition that a row of the store stands for.
    pub fn from_pod(value: PartitionPod) -> (partition: Self)
        ensures
            partition@ == (PartitionView {
                id: value.id,
                table_id: value.table_id,
                partition_key: value.partition_key@,
                sort_key: string_views(value.sort_key@),
                new_file_at: value.new_file_at,
            }),
    {
        Partition {
            id: value.id,
            table_id: value.table_id,
            partition_key: value.partition_key,
            sort_key: value.sort_key,
            new_file_at: value.new_file_at,
        }
    }
}

impl ParquetFile {
    /// The data file that a row of the store stands for: its columns are those of the
    /// row, in ascending order.
    pub fn from_pod(value: ParquetFilePod) -> (file: Self)
        ensures
            file.column_set.wf(),
            file.column_set@.to_multiset() == value.column_set@.map_values(
                |n: i64| ColumnId(n),
            ).to_multiset(),
            file@ == (ParquetFileView {
                id: value.id,
                namespace_id: value.namespace_id,
                table_id: value.table_id,
                partition_id: value.partition_id,
                object_store_id: value.object_store_id,
                min_time: value.min_time,
                max_time: value.max_time,
                to_delete: value.to_delete,
                file_size_bytes: value.file_size_bytes,
                row_count: value.row_count,
                compaction_level: value.compaction_level,
                created_at: value.created_at,
                column_set: file.column_set@,
                max_l0_created_at: value.max_l0_created_at,
            }),
    {
        ParquetFile {
            id: value.id,
            namespace_id: value.namespace_id,
            table_id: value.table_id,
            partition_id: value.partition_id,
            object_store_id: value.object_store_id,
            min_time: value.min_time,
            max_time: value.max_time,
            to_delete: value.to_delete,
            file_size_bytes: value.file_size_bytes,
            row_count: value.row_count,
            compaction_level: value.compaction_level,
            created_at: value.created_at,
            column_set: ColumnSet::from_numbers(&value.column_set),
            max_l0_created_at: value.max_l0_created_at,
        }
    }
}

} // verus!
