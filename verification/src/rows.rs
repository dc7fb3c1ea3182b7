//! The rows of the catalog's relations, each with its view.

use crate::model::{ColumnId, ColumnType, NamespaceId, PartitionId, TableId, Timestamp};
use crate::seqs::views;
use vstd::prelude::*;

verus! {

/// Copies a list of strings.
pub fn clone_strings(v: &Vec<String>) -> (r: Vec<String>)
    ensures
        r@ == v@,
{
    let mut r: Vec<String> = Vec::new();
    let mut i: usize = 0;
    while i < v.len()
        invariant
            i <= v.len(),
            r@ == v@.take(i as int),
        decreases v.len() - i,
    {
        r.push(v[i].clone());
        assert(v@.take(i + 1) =~= v@.take(i as int).push(v@[i as int]));
        i += 1;
    }
    assert(v@.take(v.len() as int) =~= v@);
    r
}

/// The views of a sequence of strings.
pub open spec fn string_views(s: Seq<String>) -> Seq<Seq<char>> {
    views(s)
}


/// Override of the partition template that a namespace hands to its tables; the catalog
/// stores it and does not interpret it.
#[derive(Debug, PartialEq, Eq)]
pub struct NamespacePartitionTemplateOverride(pub Option<String>);

impl View for NamespacePartitionTemplateOverride {
    type V = Option<Seq<char>>;

    open spec fn view(&self) -> Option<Seq<char>> {
        match self.0 {
            Some(s) => Some(s@),
            None => None,
        }
    }
}

impl Clone for NamespacePartitionTemplateOverride {
    fn clone(&self) -> (r: Self)
        ensures
            r == *self,
    {
        match &self.0 {
            Some(s) => NamespacePartitionTemplateOverride(Some(s.clone())),
            None => NamespacePartitionTemplateOverride(None),
        }
    }
}

impl Default for NamespacePartitionTemplateOverride {
    fn default() -> (r: Self)
        ensures
            r@ is None,
    {
        NamespacePartitionTemplateOverride(None)
    }
}

/// A namespace: the root of the schema hierarchy.
#[derive(Debug, PartialEq, Eq)]
pub struct Namespace {
    pub id: NamespaceId,
    pub name: String,
    pub retention_period_ns: Option<i64>,
    pub max_tables: i32,
    pub max_columns_per_table: i32,
    pub deleted_at: Option<Timestamp>,
    pub partition_template: NamespacePartitionTemplateOverride,
}

pub struct NamespaceView {
    pub id: NamespaceId,
    pub name: Seq<char>,
    pub retention_period_ns: Option<i64>,
    pub max_tables: i32,
    pub max_columns_per_table: i32,
    pub deleted_at: Option<Timestamp>,
    pub partition_template: Option<Seq<char>>,
}

impl View for Namespace {
    type V = NamespaceView;

    open spec fn view(&self) -> NamespaceView {
        NamespaceView {
            id: self.id,
            name: self.name@,
            retention_period_ns: self.retention_period_ns,
            max_tables: self.max_tables,
            max_columns_per_table: self.max_columns_per_table,
            deleted_at: self.deleted_at,
            partition_template: self.partition_template@,
        }
    }
}

impl Clone for Namespace {
    fn clone(&self) -> (r: Self)
        ensures
            r == *self,
    {
        Namespace {
            id: self.id,
            name: self.name.clone(),
            retention_period_ns: self.retention_period_ns,
            max_tables: self.max_tables,
            max_columns_per_table: self.max_columns_per_table,
            deleted_at: self.deleted_at,
            partition_template: self.partition_template.clone(),
        }
    }
}

/// A table of a namespace.
#[derive(Debug, PartialEq, Eq)]
pub struct Table {
    pub id: TableId,
    pub namespace_id: NamespaceId,
    pub name: String,
}

pub struct TableView {
    pub id: TableId,
    pub namespace_id: NamespaceId,
    pub name: Seq<char>,
}

impl View for Table {
    type V = TableView;

    open spec fn view(&self) -> TableView {
        TableView { id: self.id, namespace_id: self.namespace_id, name: self.name@ }
    }
}

impl Clone for Table {
    fn clone(&self) -> (r: Self)
        ensures
            r == *self,
    {
        Table { id: self.id, namespace_id: self.namespace_id, name: self.name.clone() }
    }
}

/// A column of a table.
#[derive(Debug, PartialEq, Eq)]
pub struct Column {
    pub id: ColumnId,
    pub table_id: TableId,
    pub name: String,
    pub column_type: ColumnType,
}

pub struct ColumnView {
    pub id: ColumnId,
    pub table_id: TableId,
    pub name: Seq<char>,
    pub column_type: ColumnType,
}

impl View for Column {
    type V = ColumnView;

    open spec fn view(&self) -> ColumnView {
        ColumnView {
            id: self.id,
            table_id: self.table_id,
            name: self.name@,
            column_type: self.column_type,
        }
    }
}

impl Clone for Column {
    fn clone(&self) -> (r: Self)
        ensures
            r == *self,
    {
        Column {
            id: self.id,
            table_id: self.table_id,
            name: self.name.clone(),
            column_type: self.column_type,
        }
    }
}

/// The key that names a partition within its table.
#[derive(Debug, PartialEq, Eq)]
pub struct PartitionKey(pub String);

impl View for PartitionKey {
    type V = Seq<char>;

    open spec fn view(&self) -> Seq<char> {
        self.0@
    }
}

impl Clone for PartitionKey {
    fn clone(&self) -> (r: Self)
        ensures
            r == *self,
    {
        PartitionKey(self.0.clone())
    }
}

impl PartitionKey {
    pub fn new(key: &str) -> (k: Self)
        ensures
            k@ == key@,
    {
        PartitionKey(key.to_string())
    }

    pub fn as_str(&self) -> (s: &str)
        ensures
            s@ == self@,
    {
        self.0.as_str()
    }
}

/// A partition of a table.
#[derive(Debug, PartialEq, Eq)]
pub struct Partition {
    pub id: PartitionId,
    pub table_id: TableId,
    pub partition_key: PartitionKey,
    /// Names of the columns by which the partition's files are sorted, in order.
    pub sort_key: Vec<String>,
    /// When a data file last arrived in the partition.
    pub new_file_at: Option<Timestamp>,
}

pub struct PartitionView {
    pub id: PartitionId,
    pub table_id: TableId,
    pub partition_key: Seq<char>,
    pub sort_key: Seq<Seq<char>>,
    pub new_file_at: Option<Timestamp>,
}

impl View for Partition {
    type V = PartitionView;

    open spec fn view(&self) -> PartitionView {
        PartitionView {
            id: self.id,
            table_id: self.table_id,
            partition_key: self.partition_key@,
            sort_key: string_views(self.sort_key@),
            new_file_at: self.new_file_at,
        }
    }
}

impl Clone for Partition {
    fn clone(&self) -> (r: Self)
        ensures
            r@ == self@,
    {
        Partition {
            id: self.id,
            table_id: self.table_id,
            partition_key: self.partition_key.clone(),
            sort_key: clone_strings(&self.sort_key),
            new_file_at: self.new_file_at,
        }
    }
}

/// Why and when the compaction of a partition was skipped.
#[derive(Debug, PartialEq, Eq)]
pub struct SkippedCompaction {
    pub partition_id: PartitionId,
    pub reason: String,
    pub skipped_at: Timestamp,
    pub estimated_bytes: u64,
    pub limit_bytes: u64,
    pub num_files: usize,
    pub limit_num_files: usize,
    pub limit_num_files_first_in_partition: usize,
}

pub struct SkippedCompactionView {
    pub partition_id: PartitionId,
    pub reason: Seq<char>,
    pub skipped_at: Timestamp,
    pub estimated_bytes: u64,
    pub limit_bytes: u64,
    pub num_files: usize,
    pub limit_num_files: usize,
    pub limit_num_files_first_in_partition: usize,
}

impl View for SkippedCompaction {
    type V = SkippedCompactionView;

    open spec fn view(&self) -> SkippedCompactionView {
        SkippedCompactionView {
            partition_id: self.partition_id,
            reason: self.reason@,
            skipped_at: self.skipped_at,
            estimated_bytes: self.estimated_bytes,
            limit_bytes: self.limit_bytes,
            num_files: self.num_files,
            limit_num_files: self.limit_num_files,
            limit_num_files_first_in_partition: self.limit_num_files_first_in_partition,
        }
    }
}

impl Clone for SkippedCompaction {
    fn clone(&self) -> (r: Self)
        ensures
            r == *self,
    {
        SkippedCompaction {
            partition_id: self.partition_id,
            reason: self.reason.clone(),
            skipped_at: self.skipped_at,
            estimated_bytes: self.estimated_bytes,
            limit_bytes: self.limit_bytes,
            num_files: self.num_files,
            limit_num_files: self.limit_num_files,
            limit_num_files_first_in_partition: self.limit_num_files_first_in_partition,
        }
    }
}

} // verus!
