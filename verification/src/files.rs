//! Data files: the set of columns a file holds, the row that describes a file, and the
//! parameters from which such a row is created.

use crate::model::{
    ColumnId, CompactionLevel, NamespaceId, ObjectStoreId, ParquetFileId, PartitionId, TableId,
    Timestamp,
};
use vstd::prelude::*;

verus! {

/// Whether column ids stand in ascending order.
pub open spec fn ascending(s: Seq<ColumnId>) -> bool {
    forall|i: int, j: int| 0 <= i < j < s.len() ==> s[i].0 <= s[j].0
}

/// The ids of the columns that a data file holds, in ascending order.
#[derive(Debug, PartialEq, Eq)]
pub struct ColumnSet {
    ids: Vec<ColumnId>,
}

impl View for ColumnSet {
    type V = Seq<ColumnId>;

    closed spec fn view(&self) -> Seq<ColumnId> {
        self.ids@
    }
}

impl ColumnSet {
    /// The invariant of a column set: its ids ascend.
    pub open spec fn wf(&self) -> bool {
        ascending(self@)
    }

    /// Where `id` goes in the ascending list `ids`: behind every id that is not greater.
    fn slot(ids: &Vec<ColumnId>, id: ColumnId) -> (at: usize)
        requires
            ascending(ids@),
        ensures
            at <= ids.len(),
            forall|k: int| 0 <= k < at ==> ids@[k].0 <= id.0,
            forall|k: int| at <= k < ids.len() ==> id.0 < ids@[k].0,
    {
        let mut at: usize = 0;
        while at < ids.len() && ids[at].0 <= id.0
            invariant
                at <= ids.len(),
                ascending(ids@),
                forall|k: int| 0 <= k < at ==> ids@[k].0 <= id.0,
            decreases ids.len() - at,
        {
            at += 1;
        }
        at
    }

    /// Builds the set that holds exactly the given ids, each as often as it is given.
    pub fn new(columns: Vec<ColumnId>) -> (set: Self)
        ensures
            set.wf(),
            set@.to_multiset() == columns@.to_multiset(),
    {
        let mut ids: Vec<ColumnId> = Vec::new();
        let mut i: usize = 0;
        assert(columns@.take(0) =~= Seq::<ColumnId>::empty());
        while i < columns.len()
            invariant
                i <= columns.len(),
                ascending(ids@),
                ids@.to_multiset() == columns@.take(i as int).to_multiset(),
            decreases columns.len() - i,
        {
            let id = columns[i];
            let at = Self::slot(&ids, id);
            let ghost before = ids@;
            ids.insert(at, id);
            assert(ascending(ids@)) by {
                assert forall|a: int, b: int| 0 <= a < b < ids@.len() implies ids@[a].0
                    <= ids@[b].0 by {
                    let pa = if a < at { a } else { a - 1 };
                    let pb = if b < at { b } else { b - 1 };
                    if a != at && b != at {
                        assert(ids@[a] == before[pa]);
                        assert(ids@[b] == before[pb]);
                    } else if a == at {
                        assert(ids@[b] == before[pb]);
                    } else {
                        assert(ids@[a] == before[pa]);
                    }
                }
            }
            proof {
                vstd::seq_lib::to_multiset_insert(before, at as int, id);
                vstd::seq_lib::to_multiset_build(columns@.take(i as int), id);
                assert(columns@.take(i + 1) =~= columns@.take(i as int).push(id));
            }
            i += 1;
        }
        assert(columns@.take(columns.len() as int) =~= columns@);
        ColumnSet { ids }
    }

    /// The ids of the set, in ascending order.
    pub fn ids(&self) -> (ids: &Vec<ColumnId>)
        ensures
            ids@ == self@,
    {
        &self.ids
    }

    /// The persisted form of the set: the numbers of its ids, in ascending order.
    pub fn to_numbers(&self) -> (numbers: Vec<i64>)
        ensures
            numbers@ == self@.map_values(|id: ColumnId| id.0),
    {
        let mut numbers: Vec<i64> = Vec::new();
        let mut i: usize = 0;
        while i < self.ids.len()
            invariant
                i <= self.ids.len(),
                numbers@ == self.ids@.take(i as int).map_values(|id: ColumnId| id.0),
            decreases self.ids.len() - i,
        {
            numbers.push(self.ids[i].0);
            assert(self.ids@.take(i + 1).map_values(|id: ColumnId| id.0) =~= self.ids@.take(
                i as int,
            ).map_values(|id: ColumnId| id.0).push(self.ids@[i as int].0));
            i += 1;
        }
        assert(self.ids@.take(self.ids.len() as int) =~= self.ids@);
        numbers
    }

    /// The set that a persisted list of numbers stands for.
    pub fn from_numbers(numbers: &Vec<i64>) -> (set: Self)
        ensures
            set.wf(),
            set@.to_multiset() == numbers@.map_values(|n: i64| ColumnId(n)).to_multiset(),
    {
        let mut columns: Vec<ColumnId> = Vec::new();
        let mut i: usize = 0;
        while i < numbers.len()
            invariant
                i <= numbers.len(),
                columns@ == numbers@.take(i as int).map_values(|n: i64| ColumnId(n)),
            decreases numbers.len() - i,
        {
            columns.push(ColumnId(numbers[i]));
            assert(numbers@.take(i + 1).map_values(|n: i64| ColumnId(n)) =~= numbers@.take(
                i as int,
            ).map_values(|n: i64| ColumnId(n)).push(ColumnId(numbers@[i as int])));
            i += 1;
        }
        assert(numbers@.take(numbers.len() as int) =~= numbers@);
        Self::new(columns)
    }
}

impl Clone for ColumnSet {
    fn clone(&self) -> (r: Self)
        ensures
            r@ == self@,
    {
        let mut ids: Vec<ColumnId> = Vec::new();
        let mut i: usize = 0;
        while i < self.ids.len()
            invariant
                i <= self.ids.len(),
                ids@ == self.ids@.take(i as int),
            decreases self.ids.len() - i,
        {
            ids.push(self.ids[i]);
            assert(self.ids@.take(i + 1) =~= self.ids@.take(i as int).push(self.ids@[i as int]));
            i += 1;
        }
        assert(self.ids@.take(self.ids.len() as int) =~= self.ids@);
        ColumnSet { ids }
    }
}

/// What a caller hands over to have a data file recorded.
#[derive(Debug, PartialEq, Eq)]
pub struct ParquetFileParams {
    pub namespace_id: NamespaceId,
    pub table_id: TableId,
    pub partition_id: PartitionId,
    pub object_store_id: ObjectStoreId,
    pub min_time: Timestamp,
    pub max_time: Timestamp,
    pub file_size_bytes: i64,
    pub row_count: i64,
    pub compaction_level: CompactionLevel,
    pub created_at: Timestamp,
    pub column_set: ColumnSet,
    pub max_l0_created_at: Timestamp,
}

pub struct ParquetFileParamsView {
    pub namespace_id: NamespaceId,
    pub table_id: TableId,
    pub partition_id: PartitionId,
    pub object_store_id: ObjectStoreId,
    pub min_time: Timestamp,
    pub max_time: Timestamp,
    pub file_size_bytes: i64,
    pub row_count: i64,
    pub compaction_level: CompactionLevel,
    pub created_at: Timestamp,
    pub column_set: Seq<ColumnId>,
    pub max_l0_created_at: Timestamp,
}

impl View for ParquetFileParams {
    type V = ParquetFileParamsView;

    open spec fn view(&self) -> ParquetFileParamsView {
        ParquetFileParamsView {
            namespace_id: self.namespace_id,
            table_id: self.table_id,
            partition_id: self.partition_id,
            object_store_id: self.object_store_id,
            min_time: self.min_time,
            max_time: self.max_time,
            file_size_bytes: self.file_size_bytes,
            row_count: self.row_count,
            compaction_level: self.compaction_level,
            created_at: self.created_at,
            column_set: self.column_set@,
            max_l0_created_at: self.max_l0_created_at,
        }
    }
}

impl Clone for ParquetFileParams {
    fn clone(&self) -> (r: Self)
        ensures
            r@ == self@,
    {
        ParquetFileParams {
            namespace_id: self.namespace_id,
            table_id: self.table_id,
            partition_id: self.partition_id,
            object_store_id: self.object_store_id,
            min_time: self.min_time,
            max_time: self.max_time,
            file_size_bytes: self.file_size_bytes,
            row_count: self.row_count,
            compaction_level: self.compaction_level,
            created_at: self.created_at,
            column_set: self.column_set.clone(),
            max_l0_created_at: self.max_l0_created_at,
        }
    }
}

/// The row that describes one data file.
#[derive(Debug, PartialEq, Eq)]
pub struct ParquetFile {
    pub id: ParquetFileId,
    pub namespace_id: NamespaceId,
    pub table_id: TableId,
    pub partition_id: PartitionId,
    pub object_store_id: ObjectStoreId,
    pub min_time: Timestamp,
    pub max_time: Timestamp,
    /// When the file was marked for deletion, if it was.
    pub to_delete: Option<Timestamp>,
    pub file_size_bytes: i64,
    pub row_count: i64,
    pub compaction_level: CompactionLevel,
    pub created_at: Timestamp,
    pub column_set: ColumnSet,
    pub max_l0_created_at: Timestamp,
}

pub struct ParquetFileView {
    pub id: ParquetFileId,
    pub namespace_id: NamespaceId,
    pub table_id: TableId,
    pub partition_id: PartitionId,
    pub object_store_id: ObjectStoreId,
    pub min_time: Timestamp,
    pub max_time: Timestamp,
    pub to_delete: Option<Timestamp>,
    pub file_size_bytes: i64,
    pub row_count: i64,
    pub compaction_level: CompactionLevel,
    pub created_at: Timestamp,
    pub column_set: Seq<ColumnId>,
    pub max_l0_created_at: Timestamp,
}

impl View for ParquetFile {
    type V = ParquetFileView;

    open spec fn view(&self) -> ParquetFileView {
        ParquetFileView {
            id: self.id,
            namespace_id: self.namespace_id,
            table_id: self.table_id,
            partition_id: self.partition_id,
            object_store_id: self.object_store_id,
            min_time: self.min_time,
            max_time: self.max_time,
            to_delete: self.to_delete,
            file_size_bytes: self.file_size_bytes,
            row_count: self.row_count,
            compaction_level: self.compaction_level,
            created_at: self.created_at,
            column_set: self.column_set@,
            max_l0_created_at: self.max_l0_created_at,
        }
    }
}

impl Clone for ParquetFile {
    fn clone(&self) -> (r: Self)
        ensures
            r@ == self@,
    {
        ParquetFile {
            id: self.id,
            namespace_id: self.namespace_id,
            table_id: self.table_id,
            partition_id: self.partition_id,
            object_store_id: self.object_store_id,
            min_time: self.min_time,
            max_time: self.max_time,
            to_delete: self.to_delete,
            file_size_bytes: self.file_size_bytes,
            row_count: self.row_count,
            compaction_level: self.compaction_level,
            created_at: self.created_at,
            column_set: self.column_set.clone(),
            max_l0_created_at: self.max_l0_created_at,
        }
    }
}

/// The row that records a file made from `params` under the id `id`: not marked for
/// deletion, and otherwise as the parameters say.
pub open spec fn file_from_params(id: ParquetFileId, params: ParquetFileParamsView)
    -> ParquetFileView {
    ParquetFileView {
        id,
        namespace_id: params.namespace_id,
        table_id: params.table_id,
        partition_id: params.partition_id,
        object_store_id: params.object_store_id,
        min_time: params.min_time,
        max_time: params.max_time,
        to_delete: None,
        file_size_bytes: params.file_size_bytes,
        row_count: params.row_count,
        compaction_level: params.compaction_level,
        created_at: params.created_at,
        column_set: params.column_set,
        max_l0_created_at: params.max_l0_created_at,
    }
}

impl ParquetFile {
    /// The row for a file made from `params` under the id `id`.
    pub fn from_params(id: ParquetFileId, params: &ParquetFileParams) -> (file: Self)
        ensures
            file@ == file_from_params(id, params@),
    {
        ParquetFile {
            id,
            namespace_id: params.namespace_id,
            table_id: params.table_id,
            partition_id: params.partition_id,
            object_store_id: params.object_store_id,
            min_time: params.min_time,
            max_time: params.max_time,
            to_delete: None,
            file_size_bytes: params.file_size_bytes,
            row_count: params.row_count,
            compaction_level: params.compaction_level,
            created_at: params.created_at,
            column_set: params.column_set.clone(),
            max_l0_created_at: params.max_l0_created_at,
        }
    }
}

} // verus!
