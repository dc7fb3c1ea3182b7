//! What holds of the repositories over all contents of the catalog.

use crate::batch::{lemma_requested_at, requests_ascend, ColumnRequestView};
use crate::billing::{live_bytes, live_size};
use crate::column::{lemma_upsert_each_names, mismatched};
use crate::error::{CasFailureView, CatalogErrorView, ErrorKind};
use crate::files::{file_from_params, ParquetFileParamsView, ParquetFileView};
use crate::model::{
    ColumnType, CompactionLevel, NamespaceId, ParquetFileId, PartitionId, TableId, Timestamp,
};
use crate::names::{lemma_name_trichotomy, name_lt};
use crate::parquet_file::{
    file_among, flagged_before, id_missing_from, past_retention, same_but_files, sweep_cap,
};
use crate::partition::partition_sorted_by;
use crate::rows::{ColumnView, NamespaceView, PartitionView};
use crate::seqs::{
    among_first, any, beyond_first, find, first_matching, keep_where, lemma_filter_next,
    lemma_position_any, lemma_position_is, lemma_position_none, lemma_position_push,
    lemma_position_update, position,
};
use crate::state::{
    column_named, file_with_id, namespace_named, namespace_with_id, partition_keyed,
    partition_with_id, table_in_namespace, table_named, table_with_id, CatalogState,
};
use vstd::prelude::*;

verus! {

/// Creating a partition is idempotent: a second call with the same key and table answers
/// with the same partition as the first and leaves the catalog as the first left it.
pub proof fn law_partition_create_or_get_idempotent(
    s: CatalogState,
    key: Seq<char>,
    table_id: TableId,
)
    ensures
        ({
            let (first, answer) = s.create_or_get_partition(key, table_id);
            answer is Ok ==> first.create_or_get_partition(key, table_id) == (first, answer)
        }),
{
    let p = partition_keyed(table_id, key);
    let (first, answer) = s.create_or_get_partition(key, table_id);
    if answer is Ok {
        lemma_position_any(s.partitions, p);
        if find(s.partitions, p) is None {
            lemma_position_push(s.partitions, answer->Ok_0, p);
        }
    }
}

/// The limit of tables is enforced: in a namespace that holds as many tables as it may,
/// or more, creating a table fails as a limit that is exceeded, and the catalog stays as
/// it is: no table is added.
pub proof fn law_table_limit_enforced(s: CatalogState, name: Seq<char>, namespace_id: NamespaceId)
    requires
        find(s.namespaces, namespace_with_id(namespace_id)) matches Some(namespace)
            && s.table_count(namespace_id) >= namespace.max_tables,
    ensures
        s.create_table(name, namespace_id) == (
            s,
            Err::<crate::rows::TableView, CatalogErrorView>(
                CatalogErrorView::TableCreateLimitError { table_name: name, namespace_id },
            ),
        ),
        s.create_table(name, namespace_id).1->Err_0.kind() == ErrorKind::LimitExceeded,
        s.create_table(name, namespace_id).0.tables_of(namespace_id) == s.tables_of(namespace_id),
{
}

/// Below the limit a table of a new name is created, and the namespace then holds one
/// table more.
pub proof fn law_table_created_below_limit(
    s: CatalogState,
    name: Seq<char>,
    namespace_id: NamespaceId,
)
    requires
        find(s.namespaces, namespace_with_id(namespace_id)) matches Some(namespace)
            && s.table_count(namespace_id) < namespace.max_tables,
        !any(s.tables, table_named(namespace_id, name)),
        s.next_table_id < i64::MAX,
    ensures
        s.create_table(name, namespace_id).1 is Ok,
        s.create_table(name, namespace_id).0.table_count(namespace_id) == s.table_count(
            namespace_id,
        ) + 1,
        s.create_table(name, namespace_id).0.table_count(namespace_id) <= find(
            s.namespaces,
            namespace_with_id(namespace_id),
        )->Some_0.max_tables,
{
    let row = s.create_table(name, namespace_id).1->Ok_0;
    Seq::lemma_filter_push(s.tables, row, table_in_namespace(namespace_id));
}

/// Whether the table exists and holds fewer columns than its namespace allows.
pub open spec fn below_column_limit(s: CatalogState, table_id: TableId) -> bool {
    match find(s.tables, table_with_id(table_id)) {
        Some(table) => match find(s.namespaces, namespace_with_id(table.namespace_id)) {
            Some(namespace) => s.column_count(table_id) < namespace.max_columns_per_table,
            None => false,
        },
        None => false,
    }
}

/// Creating a column twice is safe. After a call that succeeded, and while the table is
/// below its limit, a call with the same name and type answers with the same column and
/// leaves the catalog as it is; a call with the same name and another type fails with
/// both types, the existing and the requested one, and leaves the catalog as it is, so
/// that the column keeps its type.
pub proof fn law_column_create_or_get_twice(
    s: CatalogState,
    name: Seq<char>,
    table_id: TableId,
    column_type: ColumnType,
    other_type: ColumnType,
)
    requires
        s.create_or_get_column(name, table_id, column_type).1 is Ok,
        below_column_limit(s.create_or_get_column(name, table_id, column_type).0, table_id),
        other_type != column_type,
    ensures
        ({
            let (first, answer) = s.create_or_get_column(name, table_id, column_type);
            &&& first.create_or_get_column(name, table_id, column_type) == (first, answer)
            &&& first.create_or_get_column(name, table_id, other_type) == (
                first,
                Err::<crate::rows::ColumnView, CatalogErrorView>(
                    CatalogErrorView::ColumnTypeMismatch {
                        name,
                        existing: column_type,
                        new: other_type,
                    },
                ),
            )
        }),
{
    let p = column_named(table_id, name);
    let (first, answer) = s.create_or_get_column(name, table_id, column_type);
    let row = answer->Ok_0;
    lemma_position_any(s.columns, p);
    if find(s.columns, p) is None {
        lemma_position_push(s.columns, row, p);
    }
    assert(find(first.columns, p) == Some(row));
    assert(row.column_type == column_type);
}

/// The compare-and-swap of a sort key is correct. On a partition whose sort key is the
/// expected one it succeeds, and the partition then carries the new sort key. On a
/// partition whose sort key is another it fails, reports the sort key that the partition
/// carries, and leaves the catalog as it is. Where no partition has the id it reports
/// that.
pub proof fn law_cas_sort_key(
    s: CatalogState,
    id: PartitionId,
    expected: Seq<Seq<char>>,
    new: Seq<Seq<char>>,
)
    requires
        s.wf(),
    ensures
        ({
            let (after, answer) = s.cas_sort_key(id, expected, new);
            match s.partition_by_id(id) {
                Some(row) => if row.sort_key == expected {
                    &&& answer == Ok::<PartitionView, CasFailureView>(
                        PartitionView { sort_key: new, ..row },
                    )
                    &&& after.partition_by_id(id) == Some(PartitionView { sort_key: new, ..row })
                } else {
                    &&& answer == Err::<PartitionView, CasFailureView>(
                        CasFailureView::ValueMismatch(row.sort_key),
                    )
                    &&& after == s
                },
                None => {
                    &&& answer == Err::<PartitionView, CasFailureView>(
                        CasFailureView::QueryError(CatalogErrorView::PartitionNotFound { id }),
                    )
                    &&& after == s
                },
            }
        }),
{
    let by_id = partition_with_id(id);
    let both = partition_sorted_by(id, expected);
    lemma_position_any(s.partitions, by_id);
    lemma_position_any(s.partitions, both);
    match position(s.partitions, by_id) {
        Some(i) => {
            let row = s.partitions[i];
            assert forall|j: int| 0 <= j < s.partitions.len() && j != i implies !by_id(
                #[trigger] s.partitions[j],
            ) by {
                if j < i {
                    assert(s.partitions[j].id.0 < s.partitions[i].id.0);
                } else {
                    assert(s.partitions[i].id.0 < s.partitions[j].id.0);
                }
            }
            if row.sort_key == expected {
                assert forall|j: int| 0 <= j < i implies !both(#[trigger] s.partitions[j]) by {}
                lemma_position_is(s.partitions, both, i);
                lemma_position_update(
                    s.partitions,
                    i,
                    PartitionView { sort_key: new, ..row },
                    by_id,
                );
            } else {
                assert forall|j: int| 0 <= j < s.partitions.len() implies !both(
                    #[trigger] s.partitions[j],
                ) by {}
                lemma_position_none(s.partitions, both);
            }
        },
        None => {
            assert forall|j: int| 0 <= j < s.partitions.len() implies !both(
                #[trigger] s.partitions[j],
            ) by {
                assert(!by_id(s.partitions[j]));
            }
            lemma_position_none(s.partitions, both);
        },
    }
}

/// A compare-and-swap with a stale expectation fails: after a swap that succeeded and
/// changed the sort key, a second swap that expects the old sort key reports the new one.
pub proof fn law_cas_sort_key_stale(
    s: CatalogState,
    id: PartitionId,
    expected: Seq<Seq<char>>,
    new: Seq<Seq<char>>,
    later: Seq<Seq<char>>,
)
    requires
        s.wf(),
        s.cas_sort_key(id, expected, new).1 is Ok,
        new != expected,
    ensures
        ({
            let (after, answer) = s.cas_sort_key(id, expected, new);
            after.cas_sort_key(id, expected, later) == (
                after,
                Err::<PartitionView, CasFailureView>(CasFailureView::ValueMismatch(new)),
            )
        }),
{
    law_cas_sort_key(s, id, expected, new);
    let (after, answer) = s.cas_sort_key(id, expected, new);
    let both = partition_sorted_by(id, expected);
    lemma_position_any(s.partitions, both);
    let i = position(s.partitions, both)->Some_0;
    assert(after.partitions =~= s.partitions.update(i, answer->Ok_0));
    crate::state::lemma_partitions_changed(s, after);
    law_cas_sort_key(after, id, expected, later);
}


/// Flagging by retention flags the files that are past the retention of their namespace
/// and no others. A file that is within the retention, belongs to a namespace without
/// one, or is marked for deletion already stays as it is. A file that is past the
/// retention is marked as deleted at `now` and reported, unless more files are past it
/// than one sweep may touch.
pub proof fn law_retention_flagging(s: CatalogState, now: Timestamp, i: int)
    requires
        0 <= i < s.parquet_files.len(),
    ensures
        ({
            let due = past_retention(s.namespaces, now);
            let (after, flagged) = s.flag_by_retention(now);
            let file = s.parquet_files[i];
            &&& after.parquet_files.len() == s.parquet_files.len()
            &&& !due(file) ==> after.parquet_files[i] == file
            &&& due(file) && s.parquet_files.filter(due).len() <= sweep_cap() ==> {
                &&& after.parquet_files[i] == ParquetFileView { to_delete: Some(now), ..file }
                &&& flagged.contains(file.id)
            }
        }),
{
    let due = past_retention(s.namespaces, now);
    let files = s.parquet_files;
    let file = files[i];
    if due(file) && files.filter(due).len() <= sweep_cap() {
        lemma_filter_next(files, due, i);
        files.lemma_filter_take_len(due, i + 1);
        let chosen = first_matching(files, due, sweep_cap());
        assert(chosen == files.filter(due));
        Seq::lemma_filter_contains(files, due, i);
        let k = choose|k: int| 0 <= k < chosen.len() && chosen[k] == file;
        let ids = chosen.map_values(|f: ParquetFileView| f.id);
        assert(ids[k] == file.id);
    }
}

/// A sweep touches no more files than its cap, and reports fewer only where it touched
/// every file that was due: a caller that gets as many ids as the cap calls again.
pub proof fn law_sweep_is_bounded(
    files: Seq<ParquetFileView>,
    due: spec_fn(ParquetFileView) -> bool,
)
    ensures
        first_matching(files, due, sweep_cap()).len() <= sweep_cap(),
        first_matching(files, due, sweep_cap()).len() < sweep_cap() ==> first_matching(
            files,
            due,
            sweep_cap(),
        ) == files.filter(due),
{
}

/// The live size after a push.
proof fn lemma_live_size_push(files: Seq<ParquetFileView>, file: ParquetFileView, id: NamespaceId)
    ensures
        live_size(files.push(file), id) == live_size(files, id) + live_bytes(file, id),
{
    assert(files.push(file).drop_last() =~= files);
}

/// The live size after an update.
proof fn lemma_live_size_update(
    files: Seq<ParquetFileView>,
    i: int,
    file: ParquetFileView,
    id: NamespaceId,
)
    requires
        0 <= i < files.len(),
    ensures
        live_size(files.update(i, file), id) == live_size(files, id) - live_bytes(files[i], id)
            + live_bytes(file, id),
    decreases files.len(),
{
    let after = files.update(i, file);
    if i == files.len() - 1 {
        assert(after.drop_last() =~= files.drop_last());
    } else {
        assert(after.drop_last() =~= files.drop_last().update(i, file));
        lemma_live_size_update(files.drop_last(), i, file, id);
    }
}

/// The live size after files left that counted nothing towards it.
proof fn lemma_live_size_kept(
    files: Seq<ParquetFileView>,
    keep: spec_fn(int) -> bool,
    id: NamespaceId,
)
    requires
        forall|i: int|
            0 <= i < files.len() && !keep(i) ==> live_bytes(#[trigger] files[i], id) == 0,
    ensures
        live_size(keep_where(files, keep), id) == live_size(files, id),
    decreases files.len(),
{
    if files.len() > 0 {
        let front = files.drop_last();
        assert forall|i: int| 0 <= i < front.len() && !keep(i) implies live_bytes(
            #[trigger] front[i],
            id,
        ) == 0 by {
            assert(front[i] == files[i]);
        }
        lemma_live_size_kept(front, keep, id);
        if keep(files.len() - 1) {
            lemma_live_size_push(keep_where(front, keep), files.last(), id);
        } else {
            assert(live_bytes(files[files.len() - 1], id) == 0);
        }
    }
}

/// The live size of a namespace follows the life of its files. A file that is created
/// adds its size to the live size of its namespace and nothing to that of any other.
pub proof fn law_live_size_after_create(
    s: CatalogState,
    params: ParquetFileParamsView,
    namespace_id: NamespaceId,
)
    requires
        s.create_file(params).1 is Ok,
    ensures
        s.create_file(params).0.total_file_size_bytes(namespace_id) == s.total_file_size_bytes(
            namespace_id,
        ) + if params.namespace_id == namespace_id {
            params.file_size_bytes as int
        } else {
            0
        },
{
    let row = s.create_file(params).1->Ok_0;
    lemma_live_size_push(s.parquet_files, row, namespace_id);
}

/// A file that is marked for deletion takes its size off the live size of its namespace,
/// once: marking a file that is marked already, or one that is missing, changes no live
/// size.
pub proof fn law_live_size_after_flag(
    s: CatalogState,
    id: ParquetFileId,
    at: Timestamp,
    namespace_id: NamespaceId,
)
    ensures
        s.flag_file_for_delete(id, at).0.total_file_size_bytes(namespace_id)
            == s.total_file_size_bytes(namespace_id) - match find(
            s.parquet_files,
            file_with_id(id),
        ) {
            Some(file) => live_bytes(file, namespace_id),
            None => 0,
        },
{
    lemma_position_any(s.parquet_files, file_with_id(id));
    match position(s.parquet_files, file_with_id(id)) {
        Some(i) => {
            lemma_live_size_update(
                s.parquet_files,
                i,
                ParquetFileView { to_delete: Some(at), ..s.parquet_files[i] },
                namespace_id,
            );
        },
        None => {},
    }
}

/// Removing files that were marked for deletion changes no live size.
pub proof fn law_live_size_after_purge(
    s: CatalogState,
    older_than: Timestamp,
    namespace_id: NamespaceId,
)
    ensures
        s.delete_flagged_before(older_than).0.total_file_size_bytes(namespace_id)
            == s.total_file_size_bytes(namespace_id),
{
    let old = flagged_before(older_than);
    let keep = beyond_first(s.parquet_files, old, sweep_cap());
    assert forall|i: int| 0 <= i < s.parquet_files.len() && !keep(i) implies live_bytes(
        #[trigger] s.parquet_files[i],
        namespace_id,
    ) == 0 by {
        assert(among_first(s.parquet_files, old, sweep_cap(), i));
    }
    lemma_live_size_kept(s.parquet_files, keep, namespace_id);
}


/// The upserts of a batch leave it to every name that the batch does not hold which
/// column is found under it.
proof fn lemma_upsert_each_finds(
    s: CatalogState,
    table_id: TableId,
    batch: Seq<ColumnRequestView>,
    name: Seq<char>,
)
    requires
        forall|j: int| 0 <= j < batch.len() ==> (#[trigger] batch[j]).name != name,
    ensures
        find(s.upsert_each(table_id, batch).0.columns, column_named(table_id, name)) == find(
            s.columns,
            column_named(table_id, name),
        ),
    decreases batch.len(),
{
    if batch.len() > 0 {
        let front = batch.drop_last();
        assert forall|j: int| 0 <= j < front.len() implies (#[trigger] front[j]).name != name by {
            assert(front[j] == batch[j]);
        }
        lemma_upsert_each_finds(s, table_id, front, name);
        let (mid, rows) = s.upsert_each(table_id, front);
        let last = batch.last();
        assert(last == batch[batch.len() - 1]);
        let (after, row) = mid.upserted(table_id, last.name, last.column_type);
        if find(mid.columns, column_named(table_id, last.name)) is None {
            lemma_position_push(mid.columns, row, column_named(table_id, name));
        }
    }
}

/// The column that the upserts of a batch yield for a request carries the type of the
/// column that the table had under the name, or the requested type where it had none.
proof fn lemma_upsert_each_types(
    s: CatalogState,
    table_id: TableId,
    batch: Seq<ColumnRequestView>,
    i: int,
)
    requires
        requests_ascend(batch),
        0 <= i < batch.len(),
    ensures
        s.upsert_each(table_id, batch).1.len() == batch.len(),
        s.upsert_each(table_id, batch).1[i].name == batch[i].name,
        s.upsert_each(table_id, batch).1[i].column_type == match find(
            s.columns,
            column_named(table_id, batch[i].name),
        ) {
            Some(existing) => existing.column_type,
            None => batch[i].column_type,
        },
    decreases batch.len(),
{
    lemma_upsert_each_names(s, table_id, batch);
    let front = batch.drop_last();
    let (mid, rows) = s.upsert_each(table_id, front);
    lemma_upsert_each_names(s, table_id, front);
    if i < front.len() {
        assert forall|a: int, b: int| 0 <= a < b < front.len() implies name_lt(
            front[a].name,
            front[b].name,
        ) by {
            assert(front[a] == batch[a] && front[b] == batch[b]);
        }
        lemma_upsert_each_types(s, table_id, front, i);
        assert(front[i] == batch[i]);
        assert(s.upsert_each(table_id, batch).1[i] == rows[i]);
    } else {
        let last = batch.last();
        assert(last == batch[i]);
        assert forall|j: int| 0 <= j < front.len() implies (#[trigger] front[j]).name
            != last.name by {
            assert(front[j] == batch[j]);
            lemma_name_trichotomy(batch[j].name, batch[i].name);
        }
        lemma_upsert_each_finds(s, table_id, front, last.name);
        lemma_position_any(mid.columns, column_named(table_id, last.name));
    }
}

/// A batch that conflicts with the table in the type of one column fails with a conflict
/// that names exactly that column. Where the table has a column under one name of the
/// batch with another type than the batch asks for, and has every other column that the
/// batch names with the type that the batch asks for, the call reports a conflict of
/// types under that name, with the type that the table has and the type that the batch
/// asks for.
pub proof fn law_batch_type_conflict(
    s: CatalogState,
    table_id: TableId,
    batch: Seq<ColumnRequestView>,
    k: int,
)
    requires
        requests_ascend(batch),
        0 <= k < batch.len(),
        any(s.tables, table_with_id(table_id)),
        s.next_column_id + batch.len() <= i64::MAX,
        find(s.columns, column_named(table_id, batch[k].name)) matches Some(existing)
            && existing.column_type != batch[k].column_type,
        forall|i: int|
            0 <= i < batch.len() && i != k ==> (match find(
                s.columns,
                column_named(table_id, (#[trigger] batch[i]).name),
            ) {
                Some(existing) => existing.column_type == batch[i].column_type,
                None => true,
            }),
    ensures
        s.create_or_get_many_columns(table_id, batch).1 == Err::<
            Seq<ColumnView>,
            CatalogErrorView,
        >(
            CatalogErrorView::ColumnTypeMismatch {
                name: batch[k].name,
                existing: find(
                    s.columns,
                    column_named(table_id, batch[k].name),
                )->Some_0.column_type,
                new: batch[k].column_type,
            },
        ),
{
    let rows = s.upsert_each(table_id, batch).1;
    let p = mismatched(batch);
    assert forall|i: int| 0 <= i < batch.len() implies (p(#[trigger] rows[i]) <==> i == k) by {
        lemma_upsert_each_types(s, table_id, batch, i);
        lemma_requested_at(batch, i);
    }
    lemma_upsert_each_types(s, table_id, batch, k);
    lemma_requested_at(batch, k);
    lemma_position_is(rows, p, k);
}


/// Whether the files `after` are the files `before` in all but the mark of deletion and
/// the compaction level.
pub open spec fn same_files(before: Seq<ParquetFileView>, after: Seq<ParquetFileView>) -> bool {
    &&& after.len() == before.len()
    &&& forall|k: int|
        0 <= k < before.len() ==> #[trigger] after[k] == (ParquetFileView {
            to_delete: after[k].to_delete,
            compaction_level: after[k].compaction_level,
            ..before[k]
        })
}

/// The file of an id stands where it stood when files keep their ids and none leaves.
proof fn lemma_file_stays(
    before: Seq<ParquetFileView>,
    after: Seq<ParquetFileView>,
    id: ParquetFileId,
)
    requires
        before.len() <= after.len(),
        forall|k: int| 0 <= k < before.len() ==> (#[trigger] after[k]).id == before[k].id,
        position(before, file_with_id(id)) is Some,
    ensures
        position(after, file_with_id(id)) == position(before, file_with_id(id)),
{
    let p = file_with_id(id);
    lemma_position_any(before, p);
    let i = position(before, p)->Some_0;
    assert forall|j: int| 0 <= j < i implies !p(#[trigger] after[j]) by {
        assert(!p(before[j]));
    }
    assert(p(after[i]));
    lemma_position_is(after, p, i);
}

/// What the retirement of files leaves: the files keep all but their marks, every file
/// that was to retire is marked as deleted at the given time, and no other mark and no
/// level changes.
proof fn lemma_retire_each(s: CatalogState, ids: Seq<ParquetFileId>, at: Timestamp)
    requires
        s.retire_each(ids, at) is Ok,
    ensures
        ({
            let after = s.retire_each(ids, at)->Ok_0;
            &&& same_but_files(after, s)
            &&& after.partitions == s.partitions
            &&& after.next_parquet_file_id == s.next_parquet_file_id
            &&& same_files(s.parquet_files, after.parquet_files)
            &&& forall|k: int|
                0 <= k < s.parquet_files.len() ==> {
                    &&& (#[trigger] after.parquet_files[k]).compaction_level
                        == s.parquet_files[k].compaction_level
                    &&& (after.parquet_files[k].to_delete == s.parquet_files[k].to_delete
                        || after.parquet_files[k].to_delete == Some(at))
                }
            &&& forall|j: int|
                0 <= j < ids.len() ==> (position(
                    s.parquet_files,
                    file_with_id(#[trigger] ids[j]),
                ) matches Some(i) && after.parquet_files[i].to_delete == Some(at))
        }),
    decreases ids.len(),
{
    if ids.len() > 0 {
        let front = ids.drop_last();
        lemma_retire_each(s, front, at);
        let mid = s.retire_each(front, at)->Ok_0;
        let after = s.retire_each(ids, at)->Ok_0;
        let last = ids.last();
        let p = file_with_id(last);
        lemma_position_any(mid.parquet_files, p);
        let i = position(mid.parquet_files, p)->Some_0;
        assert(after.parquet_files =~= mid.parquet_files.update(
            i,
            ParquetFileView { to_delete: Some(at), ..mid.parquet_files[i] },
        ));
        assert forall|j: int| 0 <= j < ids.len() implies (position(
            s.parquet_files,
            file_with_id(#[trigger] ids[j]),
        ) matches Some(m) && after.parquet_files[m].to_delete == Some(at)) by {
            if j < front.len() {
                assert(front[j] == ids[j]);
                let m = position(s.parquet_files, file_with_id(front[j]))->Some_0;
                lemma_position_any(s.parquet_files, file_with_id(front[j]));
                assert(mid.parquet_files[m].to_delete == Some(at));
            } else {
                assert(ids[j] == last);
                assert forall|k: int| 0 <= k < mid.parquet_files.len() implies (
                #[trigger] s.parquet_files[k]).id == mid.parquet_files[k].id by {}
                lemma_position_any(s.parquet_files, p);
                if position(s.parquet_files, p) is None {
                    assert(!p(s.parquet_files[i]));
                }
                lemma_file_stays(s.parquet_files, mid.parquet_files, last);
            }
        }
    } else {
        assert(same_files(s.parquet_files, s.parquet_files));
    }
}

/// What the promotion of files leaves: the files keep all but their levels, and every
/// file that was to be promoted exists and carries the level.
proof fn lemma_promote_all(s: CatalogState, ids: Seq<ParquetFileId>, level: CompactionLevel)
    requires
        s.promote_all(ids, level) is Ok,
    ensures
        ({
            let after = s.promote_all(ids, level)->Ok_0;
            &&& same_but_files(after, s)
            &&& after.partitions == s.partitions
            &&& after.next_parquet_file_id == s.next_parquet_file_id
            &&& same_files(s.parquet_files, after.parquet_files)
            &&& forall|k: int|
                0 <= k < s.parquet_files.len() ==> (#[trigger] after.parquet_files[k]).to_delete
                    == s.parquet_files[k].to_delete
            &&& forall|j: int|
                0 <= j < ids.len() ==> (position(
                    s.parquet_files,
                    file_with_id(#[trigger] ids[j]),
                ) matches Some(i) && after.parquet_files[i].compaction_level == level)
        }),
{
    let (after, updated) = s.set_compaction_level(ids, level);
    let missing = id_missing_from(updated);
    lemma_position_any(ids, missing);
    let among = file_among(ids);
    let chosen = s.parquet_files.filter(among);
    assert forall|j: int| 0 <= j < ids.len() implies (position(
        s.parquet_files,
        file_with_id(#[trigger] ids[j]),
    ) matches Some(i) && after.parquet_files[i].compaction_level == level) by {
        assert(!missing(ids[j]));
        assert(updated.contains(ids[j]));
        let m = choose|m: int| 0 <= m < updated.len() && updated[m] == ids[j];
        assert(chosen[m].id == ids[j]);
        assert(chosen.contains(chosen[m]));
        Seq::lemma_filter_contains_rev(s.parquet_files, among, chosen[m]);
        let k = choose|k: int| 0 <= k < s.parquet_files.len() && s.parquet_files[k] == chosen[m];
        assert(file_with_id(ids[j])(s.parquet_files[k]));
        lemma_position_any(s.parquet_files, file_with_id(ids[j]));
        let i = position(s.parquet_files, file_with_id(ids[j]))->Some_0;
        assert(ids.contains(s.parquet_files[i].id));
    }
}

/// What the creation of files leaves: the files that were there stay as they are, and
/// behind them stands one file for each of the parameters, as the parameters say and
/// under the ids that were next.
proof fn lemma_create_each(s: CatalogState, params: Seq<ParquetFileParamsView>)
    requires
        s.create_each(params) is Ok,
    ensures
        ({
            let (after, ids) = s.create_each(params)->Ok_0;
            &&& same_but_files(after, s)
            &&& ids.len() == params.len()
            &&& after.parquet_files.len() == s.parquet_files.len() + params.len()
            &&& after.next_parquet_file_id == s.next_parquet_file_id + params.len()
            &&& forall|k: int|
                0 <= k < s.parquet_files.len() ==> #[trigger] after.parquet_files[k]
                    == s.parquet_files[k]
            &&& forall|j: int|
                0 <= j < params.len() ==> {
                    &&& (#[trigger] ids[j]).0 == s.next_parquet_file_id + j
                    &&& after.parquet_files[s.parquet_files.len() + j] == file_from_params(
                        ids[j],
                        params[j],
                    )
                }
        }),
    decreases params.len(),
{
    if params.len() > 0 {
        let front = params.drop_last();
        lemma_create_each(s, front);
        let (mid, ids_front) = s.create_each(front)->Ok_0;
        let (after, ids) = s.create_each(params)->Ok_0;
        assert forall|j: int| 0 <= j < params.len() implies {
            &&& (#[trigger] ids[j]).0 == s.next_parquet_file_id + j
            &&& after.parquet_files[s.parquet_files.len() + j] == file_from_params(
                ids[j],
                params[j],
            )
        } by {
            if j < front.len() {
                assert(ids[j] == ids_front[j]);
                assert(front[j] == params[j]);
                assert(after.parquet_files[s.parquet_files.len() + j]
                    == mid.parquet_files[s.parquet_files.len() + j]);
            }
        }
    }
}

/// The transition of a compaction is atomic. Where it fails, the catalog is as it was: no
/// file is marked, promoted or created. Where it succeeds, every file that was to be
/// deleted is marked as deleted at `now`, every file that was to be upgraded carries the
/// target level, and for each of the parameters a file exists as the parameters say,
/// under an id that no file had before.
pub proof fn law_compaction_transition(
    s: CatalogState,
    delete: Seq<ParquetFileId>,
    upgrade: Seq<ParquetFileId>,
    create: Seq<ParquetFileParamsView>,
    target_level: CompactionLevel,
    now: Timestamp,
)
    requires
        s.wf(),
    ensures
        ({
            let (after, answer) = s.create_upgrade_delete(
                delete,
                upgrade,
                create,
                target_level,
                now,
            );
            match answer {
                Err(_) => after == s,
                Ok(ids) => {
                    &&& forall|j: int|
                        0 <= j < delete.len() ==> (find(
                            after.parquet_files,
                            file_with_id(#[trigger] delete[j]),
                        ) matches Some(file) && file.to_delete == Some(now))
                    &&& forall|j: int|
                        0 <= j < upgrade.len() ==> (find(
                            after.parquet_files,
                            file_with_id(#[trigger] upgrade[j]),
                        ) matches Some(file) && file.compaction_level == target_level)
                    &&& ids.len() == create.len()
                    &&& forall|j: int|
                        0 <= j < create.len() ==> {
                            &&& !any(s.parquet_files, file_with_id(#[trigger] ids[j]))
                            &&& find(after.parquet_files, file_with_id(ids[j])) == Some(
                                file_from_params(ids[j], create[j]),
                            )
                        }
                },
            }
        }),
{
    let (after, answer) = s.create_upgrade_delete(delete, upgrade, create, target_level, now);
    if answer is Ok {
        let ids = answer->Ok_0;
        lemma_retire_each(s, delete, now);
        let retired = s.retire_each(delete, now)->Ok_0;
        lemma_promote_all(retired, upgrade, target_level);
        let promoted = retired.promote_all(upgrade, target_level)->Ok_0;
        lemma_create_each(promoted, create);
        let n = s.parquet_files.len();
        assert forall|k: int| 0 <= k < n implies (#[trigger] after.parquet_files[k]).id
            == s.parquet_files[k].id by {
            assert(after.parquet_files[k] == promoted.parquet_files[k]);
            assert(promoted.parquet_files[k].id == retired.parquet_files[k].id);
            assert(retired.parquet_files[k].id == s.parquet_files[k].id);
        }
        assert forall|j: int| 0 <= j < delete.len() implies (find(
            after.parquet_files,
            file_with_id(#[trigger] delete[j]),
        ) matches Some(file) && file.to_delete == Some(now)) by {
            let i = position(s.parquet_files, file_with_id(delete[j]))->Some_0;
            lemma_position_any(s.parquet_files, file_with_id(delete[j]));
            lemma_file_stays(s.parquet_files, after.parquet_files, delete[j]);
            assert(after.parquet_files[i] == promoted.parquet_files[i]);
            assert(promoted.parquet_files[i].to_delete == retired.parquet_files[i].to_delete);
        }
        assert forall|j: int| 0 <= j < upgrade.len() implies (find(
            after.parquet_files,
            file_with_id(#[trigger] upgrade[j]),
        ) matches Some(file) && file.compaction_level == target_level) by {
            let i = position(retired.parquet_files, file_with_id(upgrade[j]))->Some_0;
            lemma_position_any(retired.parquet_files, file_with_id(upgrade[j]));
            assert forall|k: int| 0 <= k < n implies (#[trigger] after.parquet_files[k]).id
                == retired.parquet_files[k].id by {
                assert(retired.parquet_files[k].id == s.parquet_files[k].id);
            }
            lemma_file_stays(retired.parquet_files, after.parquet_files, upgrade[j]);
            assert(after.parquet_files[i] == promoted.parquet_files[i]);
        }
        assert forall|j: int| 0 <= j < create.len() implies {
            &&& !any(s.parquet_files, file_with_id(#[trigger] ids[j]))
            &&& find(after.parquet_files, file_with_id(ids[j])) == Some(
                file_from_params(ids[j], create[j]),
            )
        } by {
            let p = file_with_id(ids[j]);
            assert(ids[j].0 == s.next_parquet_file_id + j);
            assert forall|k: int| 0 <= k < n + j implies !p(#[trigger] after.parquet_files[k]) by {
                if k < n {
                    assert(after.parquet_files[k].id == s.parquet_files[k].id);
                    assert(s.parquet_files[k].id.0 < s.next_parquet_file_id);
                } else {
                    assert(after.parquet_files[n + (k - n)] == file_from_params(
                        ids[k - n],
                        create[k - n],
                    ));
                    assert(ids[k - n].0 == s.next_parquet_file_id + (k - n));
                }
            }
            assert forall|k: int| 0 <= k < n implies !p(#[trigger] s.parquet_files[k]) by {
                assert(s.parquet_files[k].id.0 < s.next_parquet_file_id);
            }
            assert(after.parquet_files[n + j] == file_from_params(ids[j], create[j]));
            lemma_position_is(after.parquet_files, p, n + j);
        }
    }
}


/// The limit of columns is enforced: in a table that holds as many columns as its
/// namespace allows, or more, creating a column fails as a limit that is exceeded, also
/// for a column that exists, and the catalog stays as it is.
pub proof fn law_column_limit_enforced(
    s: CatalogState,
    name: Seq<char>,
    table_id: TableId,
    column_type: ColumnType,
)
    requires
        find(s.tables, table_with_id(table_id)) is Some,
        !below_column_limit(s, table_id),
    ensures
        s.create_or_get_column(name, table_id, column_type) == (
            s,
            Err::<ColumnView, CatalogErrorView>(
                CatalogErrorView::ColumnCreateLimitError { column_name: name, table_id },
            ),
        ),
        s.create_or_get_column(name, table_id, column_type).1->Err_0.kind()
            == ErrorKind::LimitExceeded,
{
}

/// A soft delete removes no row: the namespace stays in the catalog with the time of
/// its deletion, and its name stays taken.
pub proof fn law_soft_delete_keeps_the_row(s: CatalogState, name: Seq<char>, at: Timestamp)
    requires
        s.soft_delete_namespace(name, at).1 is Ok,
    ensures
        ({
            let after = s.soft_delete_namespace(name, at).0;
            &&& after.namespaces.len() == s.namespaces.len()
            &&& find(after.namespaces, namespace_named(name)) matches Some(row) && row.deleted_at
                == Some(at)
            &&& after.create_namespace(name, None, None) == (
                after,
                Err::<NamespaceView, CatalogErrorView>(CatalogErrorView::NameExists { name }),
            )
        }),
{
    let p = namespace_named(name);
    lemma_position_any(s.namespaces, p);
    let i = position(s.namespaces, p)->Some_0;
    let row = NamespaceView { deleted_at: Some(at), ..s.namespaces[i] };
    lemma_position_update(s.namespaces, i, row, p);
    let after = s.soft_delete_namespace(name, at).0;
    lemma_position_any(after.namespaces, p);
}

/// Whether the partitions `after` are the partitions `before` in all but the time of
/// the last file, followed by any partitions.
pub open spec fn same_sort_keys(before: Seq<PartitionView>, after: Seq<PartitionView>) -> bool {
    &&& before.len() <= after.len()
    &&& forall|k: int|
        0 <= k < before.len() ==> #[trigger] after[k] == (PartitionView {
            new_file_at: after[k].new_file_at,
            ..before[k]
        })
}

/// A sort key changes by compare-and-swap only: creating a partition, creating a data
/// file and the transition of a compaction leave to every partition its sort key; of a
/// partition they change the time of the last file at most.
pub proof fn law_sort_keys_stay(
    s: CatalogState,
    key: Seq<char>,
    table_id: TableId,
    params: ParquetFileParamsView,
    delete: Seq<ParquetFileId>,
    upgrade: Seq<ParquetFileId>,
    create: Seq<ParquetFileParamsView>,
    target_level: CompactionLevel,
    now: Timestamp,
)
    ensures
        same_sort_keys(s.partitions, s.create_or_get_partition(key, table_id).0.partitions),
        same_sort_keys(s.partitions, s.create_file(params).0.partitions),
        same_sort_keys(
            s.partitions,
            s.create_upgrade_delete(delete, upgrade, create, target_level, now).0.partitions,
        ),
{
    lemma_position_any(s.partitions, partition_with_id(params.partition_id));
    let (after, answer) = s.create_upgrade_delete(delete, upgrade, create, target_level, now);
    if answer is Ok {
        lemma_retire_each(s, delete, now);
        let retired = s.retire_each(delete, now)->Ok_0;
        lemma_promote_all(retired, upgrade, target_level);
        let promoted = retired.promote_all(upgrade, target_level)->Ok_0;
        lemma_create_each_partitions(promoted, create);
    }
}

/// The creation of files leaves to every partition its sort key.
proof fn lemma_create_each_partitions(s: CatalogState, params: Seq<ParquetFileParamsView>)
    requires
        s.create_each(params) is Ok,
    ensures
        same_sort_keys(s.partitions, s.create_each(params)->Ok_0.0.partitions),
        s.create_each(params)->Ok_0.0.partitions.len() == s.partitions.len(),
    decreases params.len(),
{
    if params.len() > 0 {
        let front = params.drop_last();
        lemma_create_each_partitions(s, front);
        let (mid, ids) = s.create_each(front)->Ok_0;
        lemma_position_any(mid.partitions, partition_with_id(params.last().partition_id));
        let after = s.create_each(params)->Ok_0.0;
        assert forall|k: int| 0 <= k < s.partitions.len() implies #[trigger] after.partitions[k]
            == (PartitionView { new_file_at: after.partitions[k].new_file_at, ..s.partitions[k] }) by {
            assert(mid.partitions[k] == (PartitionView {
                new_file_at: mid.partitions[k].new_file_at,
                ..s.partitions[k]
            }));
        }
    }
}

} // verus!
