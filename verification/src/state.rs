//! The catalog as a mathematical value: the rows of each relation in the order in which
//! they were inserted, and the ids that the next rows will get.

use crate::files::ParquetFileView;
use crate::model::{ColumnId, NamespaceId, ObjectStoreId, ParquetFileId, PartitionId, TableId};
use crate::rows::{ColumnView, NamespaceView, PartitionView, SkippedCompactionView, TableView};
use crate::seqs::any;
use vstd::prelude::*;

verus! {

/// The content of the catalog.
pub struct CatalogState {
    pub namespaces: Seq<NamespaceView>,
    pub tables: Seq<TableView>,
    pub columns: Seq<ColumnView>,
    pub partitions: Seq<PartitionView>,
    pub skipped_compactions: Seq<SkippedCompactionView>,
    pub parquet_files: Seq<ParquetFileView>,
    /// The id that the next namespace gets.
    pub next_namespace_id: i64,
    /// The id that the next table gets.
    pub next_table_id: i64,
    /// The id that the next column gets.
    pub next_column_id: i64,
    /// The id that the next partition gets.
    pub next_partition_id: i64,
    /// The id that the next data file gets.
    pub next_parquet_file_id: i64,
}

/// Namespaces of the given name.
pub open spec fn namespace_named(name: Seq<char>) -> spec_fn(NamespaceView) -> bool {
    |n: NamespaceView| n.name == name
}

/// The namespace of the given id.
pub open spec fn namespace_with_id(id: NamespaceId) -> spec_fn(NamespaceView) -> bool {
    |n: NamespaceView| n.id == id
}

/// The table of the given id.
pub open spec fn table_with_id(id: TableId) -> spec_fn(TableView) -> bool {
    |t: TableView| t.id == id
}

/// Tables of the given namespace.
pub open spec fn table_in_namespace(namespace_id: NamespaceId) -> spec_fn(TableView) -> bool {
    |t: TableView| t.namespace_id == namespace_id
}

/// The table of the given name in the given namespace.
pub open spec fn table_named(namespace_id: NamespaceId, name: Seq<char>) -> spec_fn(
    TableView,
) -> bool {
    |t: TableView| t.namespace_id == namespace_id && t.name == name
}

/// Columns of the given table.
pub open spec fn column_in_table(table_id: TableId) -> spec_fn(ColumnView) -> bool {
    |c: ColumnView| c.table_id == table_id
}

/// The column of the given name in the given table.
pub open spec fn column_named(table_id: TableId, name: Seq<char>) -> spec_fn(ColumnView) -> bool {
    |c: ColumnView| c.table_id == table_id && c.name == name
}

/// The partition of the given id.
pub open spec fn partition_with_id(id: PartitionId) -> spec_fn(PartitionView) -> bool {
    |p: PartitionView| p.id == id
}

/// Partitions of the given table.
pub open spec fn partition_in_table(table_id: TableId) -> spec_fn(PartitionView) -> bool {
    |p: PartitionView| p.table_id == table_id
}

/// The partition of the given key in the given table.
pub open spec fn partition_keyed(table_id: TableId, key: Seq<char>) -> spec_fn(
    PartitionView,
) -> bool {
    |p: PartitionView| p.table_id == table_id && p.partition_key == key
}

/// The skipped compaction of the given partition.
pub open spec fn skipped_of(partition_id: PartitionId) -> spec_fn(SkippedCompactionView) -> bool {
    |s: SkippedCompactionView| s.partition_id == partition_id
}

/// The data file of the given id.
pub open spec fn file_with_id(id: ParquetFileId) -> spec_fn(ParquetFileView) -> bool {
    |f: ParquetFileView| f.id == id
}

/// The data file of the given content identifier.
pub open spec fn file_with_object_store_id(id: ObjectStoreId) -> spec_fn(ParquetFileView) -> bool {
    |f: ParquetFileView| f.object_store_id == id
}

impl CatalogState {
    /// The catalog that holds nothing; ids start at 1.
    pub open spec fn empty() -> CatalogState {
        CatalogState {
            namespaces: Seq::empty(),
            tables: Seq::empty(),
            columns: Seq::empty(),
            partitions: Seq::empty(),
            skipped_compactions: Seq::empty(),
            parquet_files: Seq::empty(),
            next_namespace_id: 1,
            next_table_id: 1,
            next_column_id: 1,
            next_partition_id: 1,
            next_parquet_file_id: 1,
        }
    }

    /// Namespaces stand in the order of their ids, which lie below the next id, and no
    /// two namespaces share a name, soft-deleted ones included.
    pub open spec fn namespaces_wf(self) -> bool {
        &&& forall|i: int|
            0 <= i < self.namespaces.len() ==> (#[trigger] self.namespaces[i]).id.0
                < self.next_namespace_id
        &&& forall|i: int, j: int|
            0 <= i < j < self.namespaces.len() ==> (#[trigger] self.namespaces[i]).id.0 < (
            #[trigger] self.namespaces[j]).id.0
        &&& forall|i: int, j: int|
            0 <= i < j < self.namespaces.len() ==> (#[trigger] self.namespaces[i]).name != (
            #[trigger] self.namespaces[j]).name
    }

    /// Tables stand in the order of their ids, which lie below the next id; no two
    /// tables of one namespace share a name; the namespace of every table exists.
    pub open spec fn tables_wf(self) -> bool {
        &&& forall|i: int|
            0 <= i < self.tables.len() ==> (#[trigger] self.tables[i]).id.0 < self.next_table_id
        &&& forall|i: int, j: int|
            0 <= i < j < self.tables.len() ==> (#[trigger] self.tables[i]).id.0 < (
            #[trigger] self.tables[j]).id.0
        &&& forall|i: int, j: int|
            0 <= i < j < self.tables.len() ==> !((#[trigger] self.tables[i]).namespace_id == (
            #[trigger] self.tables[j]).namespace_id && self.tables[i].name == self.tables[j].name)
        &&& forall|i: int|
            0 <= i < self.tables.len() ==> any(
                self.namespaces,
                namespace_with_id((#[trigger] self.tables[i]).namespace_id),
            )
    }

    /// Columns stand in the order of their ids, which lie below the next id; no two
    /// columns of one table share a name; the table of every column exists.
    pub open spec fn columns_wf(self) -> bool {
        &&& forall|i: int|
            0 <= i < self.columns.len() ==> (#[trigger] self.columns[i]).id.0
                < self.next_column_id
        &&& forall|i: int, j: int|
            0 <= i < j < self.columns.len() ==> (#[trigger] self.columns[i]).id.0 < (
            #[trigger] self.columns[j]).id.0
        &&& forall|i: int, j: int|
            0 <= i < j < self.columns.len() ==> !((#[trigger] self.columns[i]).table_id == (
            #[trigger] self.columns[j]).table_id && self.columns[i].name == self.columns[j].name)
        &&& forall|i: int|
            0 <= i < self.columns.len() ==> any(
                self.tables,
                table_with_id((#[trigger] self.columns[i]).table_id),
            )
    }

    /// Partitions stand in the order of their ids, which lie below the next id; no two
    /// partitions of one table share a key; the table of every partition exists.
    pub open spec fn partitions_wf(self) -> bool {
        &&& forall|i: int|
            0 <= i < self.partitions.len() ==> (#[trigger] self.partitions[i]).id.0
                < self.next_partition_id
        &&& forall|i: int, j: int|
            0 <= i < j < self.partitions.len() ==> (#[trigger] self.partitions[i]).id.0 < (
            #[trigger] self.partitions[j]).id.0
        &&& forall|i: int, j: int|
            0 <= i < j < self.partitions.len() ==> !((#[trigger] self.partitions[i]).table_id == (
            #[trigger] self.partitions[j]).table_id && self.partitions[i].partition_key
                == self.partitions[j].partition_key)
        &&& forall|i: int|
            0 <= i < self.partitions.len() ==> any(
                self.tables,
                table_with_id((#[trigger] self.partitions[i]).table_id),
            )
    }

    /// Every partition has at most one skipped compaction, and the partition of every
    /// skipped compaction exists.
    pub open spec fn skipped_compactions_wf(self) -> bool {
        &&& forall|i: int, j: int|
            0 <= i < j < self.skipped_compactions.len() ==> (
            #[trigger] self.skipped_compactions[i]).partition_id != (
            #[trigger] self.skipped_compactions[j]).partition_id
        &&& forall|i: int|
            0 <= i < self.skipped_compactions.len() ==> any(
                self.partitions,
                partition_with_id((#[trigger] self.skipped_compactions[i]).partition_id),
            )
    }

    /// Data files stand in the order of their ids, which lie below the next id; no two
    /// files share a content identifier; the namespace, the table and the partition of
    /// every file exist.
    pub open spec fn parquet_files_wf(self) -> bool {
        &&& forall|i: int|
            0 <= i < self.parquet_files.len() ==> (#[trigger] self.parquet_files[i]).id.0
                < self.next_parquet_file_id
        &&& forall|i: int, j: int|
            0 <= i < j < self.parquet_files.len() ==> (#[trigger] self.parquet_files[i]).id.0 < (
            #[trigger] self.parquet_files[j]).id.0
        &&& forall|i: int, j: int|
            0 <= i < j < self.parquet_files.len() ==> (
            #[trigger] self.parquet_files[i]).object_store_id != (
            #[trigger] self.parquet_files[j]).object_store_id
        &&& forall|i: int|
            0 <= i < self.parquet_files.len() ==> {
                &&& any(
                    self.namespaces,
                    namespace_with_id((#[trigger] self.parquet_files[i]).namespace_id),
                )
                &&& any(self.tables, table_with_id(self.parquet_files[i].table_id))
                &&& any(self.partitions, partition_with_id(self.parquet_files[i].partition_id))
            }
    }

    /// The invariant of the catalog.
    pub open spec fn wf(self) -> bool {
        &&& self.namespaces_wf()
        &&& self.tables_wf()
        &&& self.columns_wf()
        &&& self.partitions_wf()
        &&& self.skipped_compactions_wf()
        &&& self.parquet_files_wf()
    }
}

/// A namespace that is found stays found when rows keep their ids and none leaves.
pub proof fn lemma_namespace_stays(
    before: Seq<NamespaceView>,
    after: Seq<NamespaceView>,
    id: NamespaceId,
)
    requires
        before.len() <= after.len(),
        forall|k: int| 0 <= k < before.len() ==> (#[trigger] after[k]).id == before[k].id,
        any(before, namespace_with_id(id)),
    ensures
        any(after, namespace_with_id(id)),
{
    let k = choose|k: int| 0 <= k < before.len() && namespace_with_id(id)(#[trigger] before[k]);
    assert(namespace_with_id(id)(after[k]));
}

/// A table that is found stays found when rows keep their ids and none leaves.
pub proof fn lemma_table_stays(before: Seq<TableView>, after: Seq<TableView>, id: TableId)
    requires
        before.len() <= after.len(),
        forall|k: int| 0 <= k < before.len() ==> (#[trigger] after[k]).id == before[k].id,
        any(before, table_with_id(id)),
    ensures
        any(after, table_with_id(id)),
{
    let k = choose|k: int| 0 <= k < before.len() && table_with_id(id)(#[trigger] before[k]);
    assert(table_with_id(id)(after[k]));
}

/// A partition that is found stays found when rows keep their ids and none leaves.
pub proof fn lemma_partition_stays(
    before: Seq<PartitionView>,
    after: Seq<PartitionView>,
    id: PartitionId,
)
    requires
        before.len() <= after.len(),
        forall|k: int| 0 <= k < before.len() ==> (#[trigger] after[k]).id == before[k].id,
        any(before, partition_with_id(id)),
    ensures
        any(after, partition_with_id(id)),
{
    let k = choose|k: int| 0 <= k < before.len() && partition_with_id(id)(#[trigger] before[k]);
    assert(partition_with_id(id)(after[k]));
}

/// The catalog stays well-formed when the namespaces change but keep their ids and
/// names, and nothing else changes.
pub proof fn lemma_namespaces_changed(before: CatalogState, after: CatalogState)
    requires
        before.wf(),
        after == (CatalogState { namespaces: after.namespaces, ..before }),
        after.namespaces.len() == before.namespaces.len(),
        forall|k: int|
            0 <= k < before.namespaces.len() ==> (#[trigger] after.namespaces[k]).id
                == before.namespaces[k].id && after.namespaces[k].name == before.namespaces[k].name,
    ensures
        after.wf(),
{
    assert forall|i: int| 0 <= i < after.tables.len() implies any(
        after.namespaces,
        namespace_with_id((#[trigger] after.tables[i]).namespace_id),
    ) by {
        lemma_namespace_stays(before.namespaces, after.namespaces, after.tables[i].namespace_id);
    }
    assert forall|i: int| 0 <= i < after.parquet_files.len() implies any(
        after.namespaces,
        namespace_with_id((#[trigger] after.parquet_files[i]).namespace_id),
    ) by {
        lemma_namespace_stays(
            before.namespaces,
            after.namespaces,
            after.parquet_files[i].namespace_id,
        );
    }
}

/// The catalog stays well-formed when a namespace with a new name and the next id is
/// appended.
pub proof fn lemma_namespace_added(before: CatalogState, after: CatalogState, row: NamespaceView)
    requires
        before.wf(),
        before.next_namespace_id < i64::MAX,
        row.id == NamespaceId(before.next_namespace_id),
        !any(before.namespaces, namespace_named(row.name)),
        after == (CatalogState {
            namespaces: before.namespaces.push(row),
            next_namespace_id: (before.next_namespace_id + 1) as i64,
            ..before
        }),
    ensures
        after.wf(),
{
    assert forall|i: int, j: int| 0 <= i < j < after.namespaces.len() implies (
    #[trigger] after.namespaces[i]).name != (#[trigger] after.namespaces[j]).name by {
        if j == before.namespaces.len() {
            assert(!namespace_named(row.name)(before.namespaces[i]));
        }
    }
    assert forall|i: int| 0 <= i < after.tables.len() implies any(
        after.namespaces,
        namespace_with_id((#[trigger] after.tables[i]).namespace_id),
    ) by {
        lemma_namespace_stays(before.namespaces, after.namespaces, after.tables[i].namespace_id);
    }
    assert forall|i: int| 0 <= i < after.parquet_files.len() implies any(
        after.namespaces,
        namespace_with_id((#[trigger] after.parquet_files[i]).namespace_id),
    ) by {
        lemma_namespace_stays(
            before.namespaces,
            after.namespaces,
            after.parquet_files[i].namespace_id,
        );
    }
}

/// The catalog stays well-formed when a table of an existing namespace, with a name that
/// is new in that namespace and the next id, is appended.
pub proof fn lemma_table_added(before: CatalogState, after: CatalogState, row: TableView)
    requires
        before.wf(),
        before.next_table_id < i64::MAX,
        row.id == TableId(before.next_table_id),
        any(before.namespaces, namespace_with_id(row.namespace_id)),
        !any(before.tables, table_named(row.namespace_id, row.name)),
        after == (CatalogState {
            tables: before.tables.push(row),
            next_table_id: (before.next_table_id + 1) as i64,
            ..before
        }),
    ensures
        after.wf(),
{
    assert forall|i: int, j: int| 0 <= i < j < after.tables.len() implies !((
    #[trigger] after.tables[i]).namespace_id == (#[trigger] after.tables[j]).namespace_id
        && after.tables[i].name == after.tables[j].name) by {
        if j == before.tables.len() {
            assert(!table_named(row.namespace_id, row.name)(before.tables[i]));
        }
    }
    assert forall|i: int| 0 <= i < after.columns.len() implies any(
        after.tables,
        table_with_id((#[trigger] after.columns[i]).table_id),
    ) by {
        lemma_table_stays(before.tables, after.tables, after.columns[i].table_id);
    }
    assert forall|i: int| 0 <= i < after.partitions.len() implies any(
        after.tables,
        table_with_id((#[trigger] after.partitions[i]).table_id),
    ) by {
        lemma_table_stays(before.tables, after.tables, after.partitions[i].table_id);
    }
    assert forall|i: int| 0 <= i < after.parquet_files.len() implies any(
        after.tables,
        table_with_id((#[trigger] after.parquet_files[i]).table_id),
    ) by {
        lemma_table_stays(before.tables, after.tables, after.parquet_files[i].table_id);
    }
}

/// The catalog stays well-formed when a column of an existing table, with a name that is
/// new in that table and the next id, is appended.
pub proof fn lemma_column_added(before: CatalogState, after: CatalogState, row: ColumnView)
    requires
        before.wf(),
        before.next_column_id < i64::MAX,
        row.id == ColumnId(before.next_column_id),
        any(before.tables, table_with_id(row.table_id)),
        !any(before.columns, column_named(row.table_id, row.name)),
        after == (CatalogState {
            columns: before.columns.push(row),
            next_column_id: (before.next_column_id + 1) as i64,
            ..before
        }),
    ensures
        after.wf(),
{
    assert forall|i: int, j: int| 0 <= i < j < after.columns.len() implies !((
    #[trigger] after.columns[i]).table_id == (#[trigger] after.columns[j]).table_id
        && after.columns[i].name == after.columns[j].name) by {
        if j == before.columns.len() {
            assert(!column_named(row.table_id, row.name)(before.columns[i]));
        }
    }
}

/// The catalog stays well-formed when a partition of an existing table, with a key that
/// is new in that table and the next id, is appended.
pub proof fn lemma_partition_added(before: CatalogState, after: CatalogState, row: PartitionView)
    requires
        before.wf(),
        before.next_partition_id < i64::MAX,
        row.id == PartitionId(before.next_partition_id),
        any(before.tables, table_with_id(row.table_id)),
        !any(before.partitions, partition_keyed(row.table_id, row.partition_key)),
        after == (CatalogState {
            partitions: before.partitions.push(row),
            next_partition_id: (before.next_partition_id + 1) as i64,
            ..before
        }),
    ensures
        after.wf(),
{
    assert forall|i: int, j: int| 0 <= i < j < after.partitions.len() implies !((
    #[trigger] after.partitions[i]).table_id == (#[trigger] after.partitions[j]).table_id
        && after.partitions[i].partition_key == after.partitions[j].partition_key) by {
        if j == before.partitions.len() {
            assert(!partition_keyed(row.table_id, row.partition_key)(before.partitions[i]));
        }
    }
    assert forall|i: int| 0 <= i < after.skipped_compactions.len() implies any(
        after.partitions,
        partition_with_id((#[trigger] after.skipped_compactions[i]).partition_id),
    ) by {
        lemma_partition_stays(
            before.partitions,
            after.partitions,
            after.skipped_compactions[i].partition_id,
        );
    }
    assert forall|i: int| 0 <= i < after.parquet_files.len() implies any(
        after.partitions,
        partition_with_id((#[trigger] after.parquet_files[i]).partition_id),
    ) by {
        lemma_partition_stays(
            before.partitions,
            after.partitions,
            after.parquet_files[i].partition_id,
        );
    }
}

/// The catalog stays well-formed when the partitions change but keep their ids, tables
/// and keys, and nothing else but the id of the next data file changes, which does not
/// go down.
pub proof fn lemma_partitions_changed(before: CatalogState, after: CatalogState)
    requires
        before.wf(),
        after == (CatalogState {
            partitions: after.partitions,
            next_parquet_file_id: after.next_parquet_file_id,
            ..before
        }),
        before.next_parquet_file_id <= after.next_parquet_file_id,
        after.partitions.len() == before.partitions.len(),
        forall|k: int|
            0 <= k < before.partitions.len() ==> {
                &&& (#[trigger] after.partitions[k]).id == before.partitions[k].id
                &&& after.partitions[k].table_id == before.partitions[k].table_id
                &&& after.partitions[k].partition_key == before.partitions[k].partition_key
            },
    ensures
        after.wf(),
{
    assert forall|i: int| 0 <= i < after.skipped_compactions.len() implies any(
        after.partitions,
        partition_with_id((#[trigger] after.skipped_compactions[i]).partition_id),
    ) by {
        lemma_partition_stays(
            before.partitions,
            after.partitions,
            after.skipped_compactions[i].partition_id,
        );
    }
    assert forall|i: int| 0 <= i < after.parquet_files.len() implies any(
        after.partitions,
        partition_with_id((#[trigger] after.parquet_files[i]).partition_id),
    ) by {
        lemma_partition_stays(
            before.partitions,
            after.partitions,
            after.parquet_files[i].partition_id,
        );
    }
}

/// The catalog stays well-formed when the data files change but keep their ids, their
/// content identifiers and the rows they refer to, and nothing else changes.
pub proof fn lemma_files_changed(before: CatalogState, after: CatalogState)
    requires
        before.wf(),
        after == (CatalogState { parquet_files: after.parquet_files, ..before }),
        after.parquet_files.len() == before.parquet_files.len(),
        forall|k: int|
            0 <= k < before.parquet_files.len() ==> {
                &&& (#[trigger] after.parquet_files[k]).id == before.parquet_files[k].id
                &&& after.parquet_files[k].object_store_id
                    == before.parquet_files[k].object_store_id
                &&& after.parquet_files[k].namespace_id == before.parquet_files[k].namespace_id
                &&& after.parquet_files[k].table_id == before.parquet_files[k].table_id
                &&& after.parquet_files[k].partition_id == before.parquet_files[k].partition_id
            },
    ensures
        after.wf(),
{
    assert forall|i: int| 0 <= i < after.parquet_files.len() implies {
        &&& any(
            after.namespaces,
            namespace_with_id((#[trigger] after.parquet_files[i]).namespace_id),
        )
        &&& any(after.tables, table_with_id(after.parquet_files[i].table_id))
        &&& any(after.partitions, partition_with_id(after.parquet_files[i].partition_id))
    } by {
        assert(after.parquet_files[i].namespace_id == before.parquet_files[i].namespace_id);
    }
}

/// The catalog stays well-formed when a data file with a new content identifier and the
/// next id, which refers to rows that exist, is appended, and the partitions change but
/// keep their ids, tables and keys.
pub proof fn lemma_file_added(before: CatalogState, after: CatalogState, row: ParquetFileView)
    requires
        before.wf(),
        before.next_parquet_file_id < i64::MAX,
        row.id == ParquetFileId(before.next_parquet_file_id),
        any(before.namespaces, namespace_with_id(row.namespace_id)),
        any(before.tables, table_with_id(row.table_id)),
        any(before.partitions, partition_with_id(row.partition_id)),
        !any(before.parquet_files, file_with_object_store_id(row.object_store_id)),
        after == (CatalogState {
            parquet_files: before.parquet_files.push(row),
            partitions: after.partitions,
            next_parquet_file_id: (before.next_parquet_file_id + 1) as i64,
            ..before
        }),
        after.partitions.len() == before.partitions.len(),
        forall|k: int|
            0 <= k < before.partitions.len() ==> {
                &&& (#[trigger] after.partitions[k]).id == before.partitions[k].id
                &&& after.partitions[k].table_id == before.partitions[k].table_id
                &&& after.partitions[k].partition_key == before.partitions[k].partition_key
            },
    ensures
        after.wf(),
{
    let mid = CatalogState {
        partitions: after.partitions,
        next_parquet_file_id: after.next_parquet_file_id,
        ..before
    };
    lemma_partitions_changed(before, mid);
    lemma_partition_stays(before.partitions, after.partitions, row.partition_id);
    assert forall|i: int| 0 <= i < after.skipped_compactions.len() implies any(
        after.partitions,
        partition_with_id((#[trigger] after.skipped_compactions[i]).partition_id),
    ) by {
        assert(after.skipped_compactions[i] == mid.skipped_compactions[i]);
    }
    assert forall|i: int, j: int| 0 <= i < j < after.parquet_files.len() implies (
    #[trigger] after.parquet_files[i]).object_store_id != (
    #[trigger] after.parquet_files[j]).object_store_id by {
        if j == before.parquet_files.len() {
            assert(!file_with_object_store_id(row.object_store_id)(before.parquet_files[i]));
        }
    }
    assert forall|i: int| 0 <= i < after.parquet_files.len() implies {
        &&& any(
            after.namespaces,
            namespace_with_id((#[trigger] after.parquet_files[i]).namespace_id),
        )
        &&& any(after.tables, table_with_id(after.parquet_files[i].table_id))
        &&& any(after.partitions, partition_with_id(after.parquet_files[i].partition_id))
    } by {
        if i < before.parquet_files.len() {
            assert(after.parquet_files[i] == mid.parquet_files[i]);
        }
    }
}

/// The catalog stays well-formed when data files leave: every file that stays is a file
/// that was there, and the files that stay keep their order.
pub proof fn lemma_files_left(before: CatalogState, after: CatalogState, from: Seq<int>)
    requires
        before.wf(),
        after == (CatalogState { parquet_files: after.parquet_files, ..before }),
        from.len() == after.parquet_files.len(),
        forall|a: int|
            0 <= a < from.len() ==> 0 <= #[trigger] from[a] < before.parquet_files.len()
                && after.parquet_files[a] == before.parquet_files[from[a]],
        forall|a: int, b: int| 0 <= a < b < from.len() ==> #[trigger] from[a] < #[trigger] from[b],
    ensures
        after.wf(),
{
    assert forall|i: int| 0 <= i < after.parquet_files.len() implies (
    #[trigger] after.parquet_files[i]).id.0 < after.next_parquet_file_id by {
        assert(after.parquet_files[i] == before.parquet_files[from[i]]);
    }
    assert forall|i: int, j: int| 0 <= i < j < after.parquet_files.len() implies (
    #[trigger] after.parquet_files[i]).id.0 < (#[trigger] after.parquet_files[j]).id.0 && (
    after.parquet_files[i]).object_store_id != (after.parquet_files[j]).object_store_id by {
        assert(after.parquet_files[i] == before.parquet_files[from[i]]);
        assert(after.parquet_files[j] == before.parquet_files[from[j]]);
        assert(from[i] < from[j]);
    }
    assert forall|i: int| 0 <= i < after.parquet_files.len() implies {
        &&& any(
            after.namespaces,
            namespace_with_id((#[trigger] after.parquet_files[i]).namespace_id),
        )
        &&& any(after.tables, table_with_id(after.parquet_files[i].table_id))
        &&& any(after.partitions, partition_with_id(after.parquet_files[i].partition_id))
    } by {
        assert(after.parquet_files[i] == before.parquet_files[from[i]]);
    }
}

} // verus!
