//! The data-file repository: the life of a data file from its creation over the soft
//! delete to its removal, and the atomic transition by which compaction replaces files.

use crate::error::{
    result_option_view, result_plain, result_seq, result_view, result_views, CatalogError,
    CatalogErrorView,
};
use crate::files::{
    file_from_params, ParquetFile, ParquetFileParams, ParquetFileParamsView, ParquetFileView,
};
use crate::mem::MemCatalog;
use crate::model::{
    CompactionLevel, NamespaceId, ObjectStoreId, ParquetFileId, PartitionId, TableId, Timestamp,
    MAX_PARQUET_FILES_SELECTED_ONCE,
};
use crate::namespace::place_by_id as namespace_place;
use crate::outcome::{list_result, lookup_result, plain_error, plain_failure, row_outcome};
use crate::partition::place_by_id as partition_place;
use crate::rows::{Namespace, NamespaceView, Partition, PartitionView, TableView};
use crate::seqs::{
    among_first, any, beyond_first, find, first_matching, keep_where, lemma_filter_next,
    lemma_filter_none, lemma_first_matching_next, lemma_keep_where_next, lemma_position_is,
    lemma_views_push, lemma_views_update, position, views,
};
use crate::state::{
    file_with_id, file_with_object_store_id, lemma_file_added, lemma_files_changed,
    namespace_with_id, partition_with_id, table_with_id, CatalogState,
};
use crate::store_error::StoreFailure;
use crate::table::place_by_id as table_place;
use crate::transition::{Event, EventView, Stage, Step, StepView, Transition, TransitionView};
use vstd::prelude::*;

verus! {

/// Files of the given table that are not marked for deletion.
pub open spec fn live_in_table(table_id: TableId) -> spec_fn(ParquetFileView) -> bool {
    |f: ParquetFileView| f.table_id == table_id && f.to_delete is None
}

/// Files of the given partition that are not marked for deletion.
pub open spec fn live_in_partition(partition_id: PartitionId) -> spec_fn(ParquetFileView) -> bool {
    |f: ParquetFileView| f.partition_id == partition_id && f.to_delete is None
}

/// Files that are not marked for deletion and whose table belongs to the given namespace.
pub open spec fn live_in_namespace(tables: Seq<TableView>, namespace_id: NamespaceId) -> spec_fn(
    ParquetFileView,
) -> bool {
    |f: ParquetFileView|
        f.to_delete is None && match find(tables, table_with_id(f.table_id)) {
            Some(t) => t.namespace_id == namespace_id,
            None => false,
        }
}

/// The partitions after a file that was created at `created_at` arrived in the partition
/// of the given id: that partition records the time, the others stay.
pub open spec fn file_arrived(
    partitions: Seq<PartitionView>,
    partition_id: PartitionId,
    created_at: Timestamp,
) -> Seq<PartitionView> {
    match position(partitions, partition_with_id(partition_id)) {
        Some(i) => partitions.update(
            i,
            PartitionView { new_file_at: Some(created_at), ..partitions[i] },
        ),
        None => partitions,
    }
}

impl CatalogState {
    /// Whether the namespace, the table and the partition that the parameters name exist.
    pub open spec fn refers_to_rows(self, params: ParquetFileParamsView) -> bool {
        &&& any(self.namespaces, namespace_with_id(params.namespace_id))
        &&& any(self.tables, table_with_id(params.table_id))
        &&& any(self.partitions, partition_with_id(params.partition_id))
    }

    /// The statement that inserts a data file: refused where a file has the content
    /// identifier already, and where the namespace, the table or the partition is
    /// missing. Otherwise the file gets the next id and is not marked for deletion, and
    /// its partition records the time at which the file was created.
    pub open spec fn insert_file(self, params: ParquetFileParamsView) -> (
        CatalogState,
        Result<ParquetFileView, StoreFailure>,
    ) {
        if any(self.parquet_files, file_with_object_store_id(params.object_store_id)) {
            (self, Err(StoreFailure::UniqueViolation))
        } else if !self.refers_to_rows(params) {
            (self, Err(StoreFailure::ForeignKeyViolation))
        } else if self.next_parquet_file_id == i64::MAX {
            (self, Err(StoreFailure::Other))
        } else {
            let row = file_from_params(ParquetFileId(self.next_parquet_file_id), params);
            (
                CatalogState {
                    parquet_files: self.parquet_files.push(row),
                    partitions: file_arrived(
                        self.partitions,
                        params.partition_id,
                        params.created_at,
                    ),
                    next_parquet_file_id: (self.next_parquet_file_id + 1) as i64,
                    ..self
                },
                Ok(row),
            )
        }
    }

    /// Creating a data file.
    pub open spec fn create_file(self, params: ParquetFileParamsView) -> (
        CatalogState,
        Result<ParquetFileView, CatalogErrorView>,
    ) {
        let (after, outcome) = self.insert_file(params);
        (after, created(outcome, params.object_store_id))
    }

    /// The statement that marks the file of the given id as deleted at `at`, and the
    /// number of rows that it touches: one, or none where no file has the id. A mark that
    /// the file has already is overwritten.
    pub open spec fn flag_file(self, id: ParquetFileId, at: Timestamp) -> (CatalogState, u64) {
        match position(self.parquet_files, file_with_id(id)) {
            Some(i) => (
                CatalogState {
                    parquet_files: self.parquet_files.update(
                        i,
                        ParquetFileView { to_delete: Some(at), ..self.parquet_files[i] },
                    ),
                    ..self
                },
                1,
            ),
            None => (self, 0),
        }
    }

    /// Marking a file for deletion.
    pub open spec fn flag_file_for_delete(self, id: ParquetFileId, at: Timestamp) -> (
        CatalogState,
        Result<(), CatalogErrorView>,
    ) {
        let (after, touched) = self.flag_file(id, at);
        (after, flagged(Ok(touched)))
    }

    /// The file of the given content identifier.
    pub open spec fn file_by_object_store_id(self, id: ObjectStoreId) -> Option<ParquetFileView> {
        find(self.parquet_files, file_with_object_store_id(id))
    }

    /// The files of the given table that are not marked for deletion.
    pub open spec fn live_files_of_table(self, table_id: TableId) -> Seq<ParquetFileView> {
        self.parquet_files.filter(live_in_table(table_id))
    }

    /// The files of the given partition that are not marked for deletion.
    pub open spec fn live_files_of_partition(self, partition_id: PartitionId) -> Seq<
        ParquetFileView,
    > {
        self.parquet_files.filter(live_in_partition(partition_id))
    }

    /// The files of the tables of the given namespace that are not marked for deletion.
    pub open spec fn live_files_of_namespace(self, namespace_id: NamespaceId) -> Seq<
        ParquetFileView,
    > {
        self.parquet_files.filter(live_in_namespace(self.tables, namespace_id))
    }
}

/// What `create` reports for the outcome of its statement: a content identifier that is
/// taken is reported as such, a missing row that the file refers to as a broken foreign
/// key, any other failure as a failure of the store.
pub open spec fn created(outcome: Result<ParquetFileView, StoreFailure>, id: ObjectStoreId)
    -> Result<ParquetFileView, CatalogErrorView> {
    match outcome {
        Ok(row) => Ok(row),
        Err(StoreFailure::UniqueViolation) => Err(
            CatalogErrorView::FileExists { object_store_id: id },
        ),
        Err(f) => Err(plain_failure(f)),
    }
}

/// What `flag_for_delete` reports for the number of rows that its statement touched: a
/// file that is missing is no failure.
pub open spec fn flagged(outcome: Result<u64, StoreFailure>) -> Result<(), CatalogErrorView> {
    match outcome {
        Ok(_) => Ok(()),
        Err(_) => Err(CatalogErrorView::SqlxError),
    }
}

/// Reports the outcome of the statement of `create`.
pub fn create_result(outcome: Result<ParquetFile, StoreFailure>, object_store_id: ObjectStoreId)
    -> (r: Result<ParquetFile, CatalogError>)
    ensures
        result_view(r) == created(row_outcome(outcome), object_store_id),
{
    match outcome {
        Ok(row) => Ok(row),
        Err(StoreFailure::UniqueViolation) => Err(CatalogError::FileExists { object_store_id }),
        Err(f) => Err(plain_error(f)),
    }
}

/// Reports the outcome of the statement of `flag_for_delete`.
pub fn flag_for_delete_result(outcome: Result<u64, StoreFailure>) -> (r: Result<(), CatalogError>)
    ensures
        result_plain(r) == flagged(outcome),
{
    match outcome {
        Ok(_) => Ok(()),
        Err(_) => Err(CatalogError::SqlxError),
    }
}

/// Where the file of the given id stands.
pub(crate) fn place_by_id(rows: &Vec<ParquetFile>, id: ParquetFileId) -> (at: Option<usize>)
    ensures
        match at {
            Some(i) => position(views(rows@), file_with_id(id)) == Some(i as int),
            None => position(views(rows@), file_with_id(id)) is None,
        },
        any(views(rows@), file_with_id(id)) == at is Some,
{
    let ghost p = file_with_id(id);
    let mut i: usize = 0;
    while i < rows.len()
        invariant
            i <= rows.len(),
            p == file_with_id(id),
            forall|j: int| 0 <= j < i ==> !p(#[trigger] views(rows@)[j]),
        decreases rows.len() - i,
    {
        if rows[i].id == id {
            proof {
                lemma_position_is(views(rows@), p, i as int);
            }
            return Some(i);
        }
        i += 1;
    }
    None
}

/// Where the file of the given content identifier stands.
fn place_by_object_store_id(rows: &Vec<ParquetFile>, id: ObjectStoreId) -> (at: Option<usize>)
    ensures
        match at {
            Some(i) => position(views(rows@), file_with_object_store_id(id)) == Some(i as int),
            None => position(views(rows@), file_with_object_store_id(id)) is None,
        },
        any(views(rows@), file_with_object_store_id(id)) == at is Some,
{
    let ghost p = file_with_object_store_id(id);
    let mut i: usize = 0;
    while i < rows.len()
        invariant
            i <= rows.len(),
            p == file_with_object_store_id(id),
            forall|j: int| 0 <= j < i ==> !p(#[trigger] views(rows@)[j]),
        decreases rows.len() - i,
    {
        if rows[i].object_store_id == id {
            proof {
                lemma_position_is(views(rows@), p, i as int);
            }
            return Some(i);
        }
        i += 1;
    }
    None
}

impl MemCatalog {
    /// Runs the statement that inserts a data file.
    pub(crate) fn insert_file(&mut self, params: &ParquetFileParams) -> (outcome: Result<
        ParquetFile,
        StoreFailure,
    >)
        requires
            old(self).wf(),
        ensures
            final(self).wf(),
            (final(self)@, row_outcome(outcome)) == old(self)@.insert_file(params@),
    {
        if place_by_object_store_id(&self.parquet_files, params.object_store_id).is_some() {
            return Err(StoreFailure::UniqueViolation);
        }
        if namespace_place(&self.namespaces, params.namespace_id).is_none() || table_place(
            &self.tables,
            params.table_id,
        ).is_none() {
            return Err(StoreFailure::ForeignKeyViolation);
        }
        let at = match partition_place(&self.partitions, params.partition_id) {
            Some(at) => at,
            None => {
                return Err(StoreFailure::ForeignKeyViolation);
            },
        };
        if self.next_parquet_file_id == i64::MAX {
            return Err(StoreFailure::Other);
        }
        let row = ParquetFile::from_params(ParquetFileId(self.next_parquet_file_id), params);
        let stored = row.clone();
        let partition = Partition {
            id: self.partitions[at].id,
            table_id: self.partitions[at].table_id,
            partition_key: self.partitions[at].partition_key.clone(),
            sort_key: crate::rows::clone_strings(&self.partitions[at].sort_key),
            new_file_at: Some(params.created_at),
        };
        proof {
            lemma_views_push(self.parquet_files@, stored);
            lemma_views_update(self.partitions@, at as int, partition);
            lemma_file_added(self@, old(self)@.insert_file(params@).0, row@);
        }
        self.parquet_files.push(stored);
        self.partitions[at] = partition;
        self.next_parquet_file_id = self.next_parquet_file_id + 1;
        Ok(row)
    }

    /// Runs the statement that marks a file as deleted.
    pub(crate) fn flag_file(&mut self, id: ParquetFileId, marked_at: Timestamp) -> (touched: u64)
        requires
            old(self).wf(),
        ensures
            final(self).wf(),
            (final(self)@, touched) == old(self)@.flag_file(id, marked_at),
    {
        match place_by_id(&self.parquet_files, id) {
            Some(i) => {
                let mut row = self.parquet_files[i].clone();
                row.to_delete = Some(marked_at);
                proof {
                    lemma_views_update(self.parquet_files@, i as int, row);
                    lemma_files_changed(self@, old(self)@.flag_file(id, marked_at).0);
                }
                self.parquet_files[i] = row;
                1
            },
            None => 0,
        }
    }
}

/// Records a data file.
pub fn create(repos: &mut MemCatalog, parquet_file_params: ParquetFileParams) -> (r: Result<
    ParquetFile,
    CatalogError,
>)
    requires
        old(repos).wf(),
    ensures
        final(repos).wf(),
        (final(repos)@, result_view(r)) == old(repos)@.create_file(parquet_file_params@),
{
    let outcome = repos.insert_file(&parquet_file_params);
    create_result(outcome, parquet_file_params.object_store_id)
}

/// Marks the file of the given id as deleted at `now`. The row stays.
pub fn flag_for_delete(repos: &mut MemCatalog, id: ParquetFileId, now: Timestamp) -> (r: Result<
    (),
    CatalogError,
>)
    requires
        old(repos).wf(),
    ensures
        final(repos).wf(),
        (final(repos)@, result_plain(r)) == old(repos)@.flag_file_for_delete(id, now),
{
    let touched = repos.flag_file(id, now);
    flag_for_delete_result(Ok(touched))
}

/// Lists every data file, marked for deletion or not.
pub fn list_all(repos: &MemCatalog) -> (r: Result<Vec<ParquetFile>, CatalogError>)
    ensures
        result_views(r) == Ok::<Seq<ParquetFileView>, CatalogErrorView>(repos@.parquet_files),
{
    let rows = &repos.parquet_files;
    let mut out: Vec<ParquetFile> = Vec::new();
    let mut i: usize = 0;
    proof {
        assert(views(out@) =~= views(rows@).take(0));
    }
    while i < rows.len()
        invariant
            i <= rows.len(),
            views(out@) == views(rows@).take(i as int),
        decreases rows.len() - i,
    {
        let row = rows[i].clone();
        proof {
            assert(views(rows@).take(i + 1) =~= views(rows@).take(i as int).push(row@));
        }
        out.push(row);
        i += 1;
    }
    proof {
        assert(views(rows@).take(rows.len() as int) =~= views(rows@));
    }
    list_result(Ok(out))
}

/// Lists the files of the tables of the given namespace that are not marked for
/// deletion.
pub fn list_by_namespace_not_to_delete(repos: &MemCatalog, namespace_id: NamespaceId) -> (r: Result<
    Vec<ParquetFile>,
    CatalogError,
>)
    ensures
        result_views(r) == Ok::<Seq<ParquetFileView>, CatalogErrorView>(
            repos@.live_files_of_namespace(namespace_id),
        ),
{
    let rows = &repos.parquet_files;
    let ghost p = live_in_namespace(repos@.tables, namespace_id);
    let mut out: Vec<ParquetFile> = Vec::new();
    let mut i: usize = 0;
    proof {
        lemma_filter_none(views(rows@), p);
        assert(views(out@) =~= Seq::<ParquetFileView>::empty());
    }
    while i < rows.len()
        invariant
            i <= rows.len(),
            p == live_in_namespace(repos@.tables, namespace_id),
            views(out@) == views(rows@).take(i as int).filter(p),
        decreases rows.len() - i,
    {
        proof {
            lemma_filter_next(views(rows@), p, i as int);
        }
        let live = rows[i].to_delete.is_none() && match table_place(
            &repos.tables,
            rows[i].table_id,
        ) {
            Some(at) => repos.tables[at].namespace_id == namespace_id,
            None => false,
        };
        if live {
            let row = rows[i].clone();
            out.push(row);
        }
        i += 1;
    }
    list_result(Ok(out))
}

/// Lists the files of the given table that are not marked for deletion.
pub fn list_by_table_not_to_delete(repos: &MemCatalog, table_id: TableId) -> (r: Result<
    Vec<ParquetFile>,
    CatalogError,
>)
    ensures
        result_views(r) == Ok::<Seq<ParquetFileView>, CatalogErrorView>(
            repos@.live_files_of_table(table_id),
        ),
{
    let rows = &repos.parquet_files;
    let ghost p = live_in_table(table_id);
    let mut out: Vec<ParquetFile> = Vec::new();
    let mut i: usize = 0;
    proof {
        lemma_filter_none(views(rows@), p);
        assert(views(out@) =~= Seq::<ParquetFileView>::empty());
    }
    while i < rows.len()
        invariant
            i <= rows.len(),
            p == live_in_table(table_id),
            views(out@) == views(rows@).take(i as int).filter(p),
        decreases rows.len() - i,
    {
        proof {
            lemma_filter_next(views(rows@), p, i as int);
        }
        if rows[i].table_id == table_id && rows[i].to_delete.is_none() {
            let row = rows[i].clone();
            out.push(row);
        }
        i += 1;
    }
    list_result(Ok(out))
}

/// Lists the files of the given partition that are not marked for deletion.
pub fn list_by_partition_not_to_delete(repos: &MemCatalog, partition_id: PartitionId) -> (r: Result<
    Vec<ParquetFile>,
    CatalogError,
>)
    ensures
        result_views(r) == Ok::<Seq<ParquetFileView>, CatalogErrorView>(
            repos@.live_files_of_partition(partition_id),
        ),
{
    let rows = &repos.parquet_files;
    let ghost p = live_in_partition(partition_id);
    let mut out: Vec<ParquetFile> = Vec::new();
    let mut i: usize = 0;
    proof {
        lemma_filter_none(views(rows@), p);
        assert(views(out@) =~= Seq::<ParquetFileView>::empty());
    }
    while i < rows.len()
        invariant
            i <= rows.len(),
            p == live_in_partition(partition_id),
            views(out@) == views(rows@).take(i as int).filter(p),
        decreases rows.len() - i,
    {
        proof {
            lemma_filter_next(views(rows@), p, i as int);
        }
        if rows[i].partition_id == partition_id && rows[i].to_delete.is_none() {
            let row = rows[i].clone();
            out.push(row);
        }
        i += 1;
    }
    list_result(Ok(out))
}

/// Looks for the file of the given content identifier.
pub fn get_by_object_store_id(repos: &MemCatalog, object_store_id: ObjectStoreId) -> (r: Result<
    Option<ParquetFile>,
    CatalogError,
>)
    ensures
        result_option_view(r) == Ok::<Option<ParquetFileView>, CatalogErrorView>(
            repos@.file_by_object_store_id(object_store_id),
        ),
{
    match place_by_object_store_id(&repos.parquet_files, object_store_id) {
        Some(i) => lookup_result(Ok(repos.parquet_files[i].clone())),
        None => lookup_result(Err(StoreFailure::RowNotFound)),
    }
}


/// Files that are not marked for deletion and whose namespace retains files for a period
/// that, counted from the latest time of the file, ended before `now`.
pub open spec fn past_retention(namespaces: Seq<NamespaceView>, now: Timestamp) -> spec_fn(
    ParquetFileView,
) -> bool {
    |f: ParquetFileView|
        f.to_delete is None && match find(namespaces, namespace_with_id(f.namespace_id)) {
            Some(namespace) => match namespace.retention_period_ns {
                Some(period) => f.max_time.0 < now.0 - period,
                None => false,
            },
            None => false,
        }
}

/// Files that were marked for deletion before `older_than`.
pub open spec fn flagged_before(older_than: Timestamp) -> spec_fn(ParquetFileView) -> bool {
    |f: ParquetFileView|
        match f.to_delete {
            Some(at) => at.0 < older_than.0,
            None => false,
        }
}

/// Files whose id is among the given ids.
pub open spec fn file_among(ids: Seq<ParquetFileId>) -> spec_fn(ParquetFileView) -> bool {
    |f: ParquetFileView| ids.contains(f.id)
}

/// The number of files that one sweep touches at most.
pub open spec fn sweep_cap() -> nat {
    MAX_PARQUET_FILES_SELECTED_ONCE as nat
}

impl CatalogState {
    /// The statement that marks files past their retention as deleted at `now`: the first
    /// files that are past it, up to the cap of a sweep, are marked, and their ids are
    /// yielded in ascending order.
    pub open spec fn flag_by_retention(self, now: Timestamp) -> (
        CatalogState,
        Seq<ParquetFileId>,
    ) {
        let due = past_retention(self.namespaces, now);
        (
            CatalogState {
                parquet_files: Seq::new(
                    self.parquet_files.len(),
                    |i: int|
                        if among_first(self.parquet_files, due, sweep_cap(), i) {
                            ParquetFileView { to_delete: Some(now), ..self.parquet_files[i] }
                        } else {
                            self.parquet_files[i]
                        },
                ),
                ..self
            },
            first_matching(self.parquet_files, due, sweep_cap()).map_values(
                |f: ParquetFileView| f.id,
            ),
        )
    }

    /// The statement that removes files which were marked for deletion before
    /// `older_than`: the first such files, up to the cap of a sweep, leave the catalog,
    /// and their ids are yielded in ascending order.
    pub open spec fn delete_flagged_before(self, older_than: Timestamp) -> (
        CatalogState,
        Seq<ParquetFileId>,
    ) {
        let old = flagged_before(older_than);
        (
            CatalogState {
                parquet_files: keep_where(
                    self.parquet_files,
                    beyond_first(self.parquet_files, old, sweep_cap()),
                ),
                ..self
            },
            first_matching(self.parquet_files, old, sweep_cap()).map_values(
                |f: ParquetFileView| f.id,
            ),
        )
    }

    /// The statement that sets the compaction level of the files of the given ids: every
    /// file whose id is among them gets the level, and the ids of these files are yielded
    /// in ascending order.
    pub open spec fn set_compaction_level(self, ids: Seq<ParquetFileId>, level: CompactionLevel)
        -> (CatalogState, Seq<ParquetFileId>) {
        (
            CatalogState {
                parquet_files: self.parquet_files.map_values(
                    |f: ParquetFileView|
                        if ids.contains(f.id) {
                            ParquetFileView { compaction_level: level, ..f }
                        } else {
                            f
                        },
                ),
                ..self
            },
            self.parquet_files.filter(file_among(ids)).map_values(|f: ParquetFileView| f.id),
        )
    }
}

/// Tells whether `id` is among `ids`.
pub fn contains_id(ids: &[ParquetFileId], id: ParquetFileId) -> (found: bool)
    ensures
        found == ids@.contains(id),
{
    let mut i: usize = 0;
    while i < ids.len()
        invariant
            i <= ids.len(),
            forall|j: int| 0 <= j < i ==> ids@[j] != id,
        decreases ids.len() - i,
    {
        if ids[i] == id {
            return true;
        }
        i += 1;
    }
    false
}

/// Tells whether the file is past the retention of its namespace at `now`.
fn is_past_retention(namespaces: &Vec<Namespace>, file: &ParquetFile, now: Timestamp) -> (due: bool)
    ensures
        due == past_retention(views(namespaces@), now)(file@),
{
    if file.to_delete.is_some() {
        return false;
    }
    match namespace_place(namespaces, file.namespace_id) {
        Some(at) => match namespaces[at].retention_period_ns {
            Some(period) => (file.max_time.0 as i128) < now.0 as i128 - period as i128,
            None => false,
        },
        None => false,
    }
}

impl MemCatalog {
    /// Runs the statement that marks files past their retention as deleted.
    fn flag_by_retention(&mut self, now: Timestamp) -> (flagged: Vec<ParquetFileId>)
        requires
            old(self).wf(),
        ensures
            final(self).wf(),
            (final(self)@, flagged@) == old(self)@.flag_by_retention(now),
    {
        let ghost before = self@.parquet_files;
        let ghost due = past_retention(self@.namespaces, now);
        let ghost id_of = |f: ParquetFileView| f.id;
        let mut rows: Vec<ParquetFile> = Vec::new();
        let mut flagged: Vec<ParquetFileId> = Vec::new();
        let mut i: usize = 0;
        proof {
            lemma_filter_none(before, due);
            assert(flagged@ =~= first_matching(before.take(0), due, sweep_cap()).map_values(id_of));
        }
        while i < self.parquet_files.len()
            invariant
                i <= self.parquet_files.len(),
                *self == *old(self),
                before == self@.parquet_files,
                due == past_retention(self@.namespaces, now),
                id_of == |f: ParquetFileView| f.id,
                rows@.len() == i,
                forall|j: int|
                    0 <= j < i ==> (#[trigger] rows@[j])@ == if among_first(
                        before,
                        due,
                        sweep_cap(),
                        j,
                    ) {
                        ParquetFileView { to_delete: Some(now), ..before[j] }
                    } else {
                        before[j]
                    },
                flagged@ == first_matching(before.take(i as int), due, sweep_cap()).map_values(
                    id_of,
                ),
                flagged@.len() <= sweep_cap(),
            decreases self.parquet_files.len() - i,
        {
            proof {
                lemma_first_matching_next(before, due, sweep_cap(), i as int);
            }
            let mut row = self.parquet_files[i].clone();
            if flagged.len() < MAX_PARQUET_FILES_SELECTED_ONCE as usize && is_past_retention(
                &self.namespaces,
                &row,
                now,
            ) {
                proof {
                    let chosen = first_matching(before.take(i as int), due, sweep_cap());
                    assert(chosen.push(before[i as int]).map_values(id_of) =~= chosen.map_values(
                        id_of,
                    ).push(row.id));
                }
                row.to_delete = Some(now);
                flagged.push(row.id);
            }
            rows.push(row);
            i += 1;
        }
        proof {
            let after = old(self)@.flag_by_retention(now).0;
            assert(views(rows@) =~= after.parquet_files);
        }
        self.parquet_files = rows;
        flagged
    }

    /// Runs the statement that removes files which were marked for deletion before
    /// `older_than`.
    fn delete_flagged_before(&mut self, older_than: Timestamp) -> (removed: Vec<ParquetFileId>)
        requires
            old(self).wf(),
        ensures
            final(self).wf(),
            (final(self)@, removed@) == old(self)@.delete_flagged_before(older_than),
    {
        let ghost before = self@.parquet_files;
        let ghost old_enough = flagged_before(older_than);
        let ghost keep = beyond_first(before, old_enough, sweep_cap());
        let ghost id_of = |f: ParquetFileView| f.id;
        let ghost mut from: Seq<int> = Seq::empty();
        let mut rows: Vec<ParquetFile> = Vec::new();
        let mut removed: Vec<ParquetFileId> = Vec::new();
        let mut i: usize = 0;
        proof {
            lemma_filter_none(before, old_enough);
            assert(removed@ =~= first_matching(before.take(0), old_enough, sweep_cap()).map_values(
                id_of,
            ));
            assert(views(rows@) =~= keep_where(before.take(0), keep));
        }
        while i < self.parquet_files.len()
            invariant
                i <= self.parquet_files.len(),
                *self == *old(self),
                before == self@.parquet_files,
                old_enough == flagged_before(older_than),
                keep == beyond_first(before, old_enough, sweep_cap()),
                id_of == |f: ParquetFileView| f.id,
                views(rows@) == keep_where(before.take(i as int), keep),
                removed@ == first_matching(
                    before.take(i as int),
                    old_enough,
                    sweep_cap(),
                ).map_values(id_of),
                removed@.len() <= sweep_cap(),
                from.len() == rows@.len(),
                forall|a: int|
                    0 <= a < from.len() ==> 0 <= #[trigger] from[a] < i && views(rows@)[a]
                        == before[from[a]],
                forall|a: int, b: int|
                    0 <= a < b < from.len() ==> #[trigger] from[a] < #[trigger] from[b],
            decreases self.parquet_files.len() - i,
        {
            proof {
                lemma_first_matching_next(before, old_enough, sweep_cap(), i as int);
                lemma_keep_where_next(before, keep, i as int);
            }
            let old_row = match self.parquet_files[i].to_delete {
                Some(at) => at.0 < older_than.0,
                None => false,
            };
            if removed.len() < MAX_PARQUET_FILES_SELECTED_ONCE as usize && old_row {
                proof {
                    let chosen = first_matching(before.take(i as int), old_enough, sweep_cap());
                    assert(chosen.push(before[i as int]).map_values(id_of) =~= chosen.map_values(
                        id_of,
                    ).push(before[i as int].id));
                }
                removed.push(self.parquet_files[i].id);
            } else {
                let row = self.parquet_files[i].clone();
                proof {
                    from = from.push(i as int);
                }
                rows.push(row);
            }
            i += 1;
        }
        proof {
            let after = old(self)@.delete_flagged_before(older_than).0;
            crate::state::lemma_files_left(self@, after, from);
        }
        self.parquet_files = rows;
        removed
    }

    /// Runs the statement that sets the compaction level of the files of the given ids.
    pub(crate) fn set_compaction_level(&mut self, ids: &[ParquetFileId], level: CompactionLevel)
        -> (updated: Vec<ParquetFileId>)
        requires
            old(self).wf(),
        ensures
            final(self).wf(),
            (final(self)@, updated@) == old(self)@.set_compaction_level(ids@, level),
    {
        let ghost before = self@.parquet_files;
        let ghost among = file_among(ids@);
        let ghost id_of = |f: ParquetFileView| f.id;
        let mut rows: Vec<ParquetFile> = Vec::new();
        let mut updated: Vec<ParquetFileId> = Vec::new();
        let mut i: usize = 0;
        proof {
            lemma_filter_none(before, among);
            assert(updated@ =~= before.take(0).filter(among).map_values(id_of));
        }
        while i < self.parquet_files.len()
            invariant
                i <= self.parquet_files.len(),
                *self == *old(self),
                before == self@.parquet_files,
                among == file_among(ids@),
                id_of == |f: ParquetFileView| f.id,
                rows@.len() == i,
                forall|j: int|
                    0 <= j < i ==> (#[trigger] rows@[j])@ == if ids@.contains(before[j].id) {
                        ParquetFileView { compaction_level: level, ..before[j] }
                    } else {
                        before[j]
                    },
                updated@ == before.take(i as int).filter(among).map_values(id_of),
            decreases self.parquet_files.len() - i,
        {
            proof {
                lemma_filter_next(before, among, i as int);
            }
            let mut row = self.parquet_files[i].clone();
            if contains_id(ids, row.id) {
                proof {
                    let chosen = before.take(i as int).filter(among);
                    assert(chosen.push(before[i as int]).map_values(id_of) =~= chosen.map_values(
                        id_of,
                    ).push(row.id));
                }
                row.compaction_level = level;
                updated.push(row.id);
            }
            rows.push(row);
            i += 1;
        }
        proof {
            let after = old(self)@.set_compaction_level(ids@, level).0;
            assert(views(rows@) =~= after.parquet_files);
        }
        self.parquet_files = rows;
        updated
    }
}

/// Marks files whose namespace retains files for a period that, counted from the latest
/// time of the file, ended before `now`. One call marks as many files as a sweep may
/// touch at most, and hands out the ids of those that it marked.
pub fn flag_for_delete_by_retention(repos: &mut MemCatalog, now: Timestamp) -> (r: Result<
    Vec<ParquetFileId>,
    CatalogError,
>)
    requires
        old(repos).wf(),
    ensures
        final(repos).wf(),
        (final(repos)@, result_seq(r)) == (
            old(repos)@.flag_by_retention(now).0,
            Ok::<Seq<ParquetFileId>, CatalogErrorView>(old(repos)@.flag_by_retention(now).1),
        ),
{
    let flagged = repos.flag_by_retention(now);
    list_result(Ok(flagged))
}

/// Removes files that were marked for deletion before `older_than`. One call removes as
/// many files as a sweep may touch at most, and hands out the ids of those that it
/// removed.
pub fn delete_old_ids_only(repos: &mut MemCatalog, older_than: Timestamp) -> (r: Result<
    Vec<ParquetFileId>,
    CatalogError,
>)
    requires
        old(repos).wf(),
    ensures
        final(repos).wf(),
        (final(repos)@, result_seq(r)) == (
            old(repos)@.delete_flagged_before(older_than).0,
            Ok::<Seq<ParquetFileId>, CatalogErrorView>(
                old(repos)@.delete_flagged_before(older_than).1,
            ),
        ),
{
    let removed = repos.delete_flagged_before(older_than);
    list_result(Ok(removed))
}

/// Sets the compaction level of the files of the given ids, and hands out the ids of the
/// files that it changed.
pub fn update_compaction_level(
    repos: &mut MemCatalog,
    parquet_file_ids: &[ParquetFileId],
    compaction_level: CompactionLevel,
) -> (r: Result<Vec<ParquetFileId>, CatalogError>)
    requires
        old(repos).wf(),
    ensures
        final(repos).wf(),
        (final(repos)@, result_seq(r)) == (
            old(repos)@.set_compaction_level(parquet_file_ids@, compaction_level).0,
            Ok::<Seq<ParquetFileId>, CatalogErrorView>(
                old(repos)@.set_compaction_level(parquet_file_ids@, compaction_level).1,
            ),
        ),
{
    let updated = repos.set_compaction_level(parquet_file_ids, compaction_level);
    list_result(Ok(updated))
}


/// Whether no id is in both lists.
pub open spec fn disjoint(a: Seq<ParquetFileId>, b: Seq<ParquetFileId>) -> bool {
    forall|i: int, j: int| 0 <= i < a.len() && 0 <= j < b.len() ==> a[i] != b[j]
}

/// Ids that are not among the given ids.
pub open spec fn id_missing_from(ids: Seq<ParquetFileId>) -> spec_fn(ParquetFileId) -> bool {
    |id: ParquetFileId| !ids.contains(id)
}

/// What the retirement of a file within the transition reports for the number of rows
/// that its statement touched: a file that is missing fails the transition.
pub open spec fn retired(outcome: Result<u64, StoreFailure>, id: ParquetFileId) -> Result<
    (),
    CatalogErrorView,
> {
    match outcome {
        Ok(touched) => if touched == 0 {
            Err(CatalogErrorView::ParquetRecordNotFound { id })
        } else {
            Ok(())
        },
        Err(_) => Err(CatalogErrorView::SqlxError),
    }
}

/// What the promotion of files within the transition reports for the ids that its
/// statement yields: the first id that was to be promoted and is not among them names a
/// file that is missing, which fails the transition.
pub open spec fn promoted(
    outcome: Result<Seq<ParquetFileId>, StoreFailure>,
    ids: Seq<ParquetFileId>,
) -> Result<(), CatalogErrorView> {
    match outcome {
        Ok(updated) => match position(ids, id_missing_from(updated)) {
            Some(i) => Err(CatalogErrorView::ParquetRecordNotFound { id: ids[i] }),
            None => Ok(()),
        },
        Err(_) => Err(CatalogErrorView::SqlxError),
    }
}

/// Whether two contents differ at most in the data files, in the partitions and in the
/// id of the next data file.
pub open spec fn same_but_files(a: CatalogState, b: CatalogState) -> bool {
    a == (CatalogState {
        parquet_files: a.parquet_files,
        partitions: a.partitions,
        next_parquet_file_id: a.next_parquet_file_id,
        ..b
    })
}

impl CatalogState {
    /// The catalog after each of the files of the given ids was marked as deleted at
    /// `at`, in turn; the failure of the first of them that is missing.
    pub open spec fn retire_each(self, ids: Seq<ParquetFileId>, at: Timestamp) -> Result<
        CatalogState,
        CatalogErrorView,
    >
        decreases ids.len(),
    {
        if ids.len() == 0 {
            Ok(self)
        } else {
            match self.retire_each(ids.drop_last(), at) {
                Err(e) => Err(e),
                Ok(mid) => {
                    let (after, touched) = mid.flag_file(ids.last(), at);
                    match retired(Ok(touched), ids.last()) {
                        Ok(_) => Ok(after),
                        Err(e) => Err(e),
                    }
                },
            }
        }
    }

    /// The catalog after the files of the given ids got the given level; the failure of
    /// the first of them that is missing.
    pub open spec fn promote_all(self, ids: Seq<ParquetFileId>, level: CompactionLevel) -> Result<
        CatalogState,
        CatalogErrorView,
    > {
        let (after, updated) = self.set_compaction_level(ids, level);
        match promoted(Ok(updated), ids) {
            Ok(_) => Ok(after),
            Err(e) => Err(e),
        }
    }

    /// The catalog after a file was created from each of the parameters, in turn, and the
    /// ids of these files in the order of the parameters; the failure of the first file
    /// that cannot be created.
    pub open spec fn create_each(self, params: Seq<ParquetFileParamsView>) -> Result<
        (CatalogState, Seq<ParquetFileId>),
        CatalogErrorView,
    >
        decreases params.len(),
    {
        if params.len() == 0 {
            Ok((self, Seq::empty()))
        } else {
            match self.create_each(params.drop_last()) {
                Err(e) => Err(e),
                Ok((mid, ids)) => {
                    let (after, created) = mid.create_file(params.last());
                    match created {
                        Ok(row) => Ok((after, ids.push(row.id))),
                        Err(e) => Err(e),
                    }
                },
            }
        }
    }

    /// The transition of a compaction, which takes effect as a whole or not at all: the
    /// files to delete are marked as deleted at `now`, then the files to upgrade get the
    /// target level, then the new files are created. Where a step fails the catalog stays
    /// as it was before the first step.
    pub open spec fn create_upgrade_delete(
        self,
        delete: Seq<ParquetFileId>,
        upgrade: Seq<ParquetFileId>,
        create: Seq<ParquetFileParamsView>,
        target_level: CompactionLevel,
        now: Timestamp,
    ) -> (CatalogState, Result<Seq<ParquetFileId>, CatalogErrorView>) {
        match self.retire_each(delete, now) {
            Err(e) => (self, Err(e)),
            Ok(retired) => match retired.promote_all(upgrade, target_level) {
                Err(e) => (self, Err(e)),
                Ok(promoted) => match promoted.create_each(create) {
                    Err(e) => (self, Err(e)),
                    Ok((after, ids)) => (after, Ok(ids)),
                },
            },
        }
    }
}

/// Reports the outcome of the statement that retires a file within the transition.
pub fn retire_result(outcome: Result<u64, StoreFailure>, id: ParquetFileId) -> (r: Result<
    (),
    CatalogError,
>)
    ensures
        result_plain(r) == retired(outcome, id),
{
    match outcome {
        Ok(touched) => {
            if touched == 0 {
                Err(CatalogError::ParquetRecordNotFound { id })
            } else {
                Ok(())
            }
        },
        Err(_) => Err(CatalogError::SqlxError),
    }
}

/// Reports the outcome of the statement that promotes files within the transition.
pub fn promote_result(outcome: Result<Vec<ParquetFileId>, StoreFailure>, ids: &[ParquetFileId])
    -> (r: Result<(), CatalogError>)
    ensures
        result_plain(r) == promoted(
            match outcome {
                Ok(updated) => Ok(updated@),
                Err(f) => Err(f),
            },
            ids@,
        ),
{
    match outcome {
        Ok(updated) => {
            let ghost p = id_missing_from(updated@);
            let mut i: usize = 0;
            while i < ids.len()
                invariant
                    i <= ids.len(),
                    p == id_missing_from(updated@),
                    outcome == Ok::<Vec<ParquetFileId>, StoreFailure>(updated),
                    forall|j: int| 0 <= j < i ==> !p(#[trigger] ids@[j]),
                decreases ids.len() - i,
            {
                if !contains_id(updated.as_slice(), ids[i]) {
                    proof {
                        lemma_position_is(ids@, p, i as int);
                    }
                    return Err(CatalogError::ParquetRecordNotFound { id: ids[i] });
                }
                i += 1;
            }
            Ok(())
        },
        Err(_) => Err(CatalogError::SqlxError),
    }
}

/// Tells whether no id is in both lists.
pub fn are_disjoint(a: &[ParquetFileId], b: &[ParquetFileId]) -> (d: bool)
    ensures
        d == disjoint(a@, b@),
{
    let mut i: usize = 0;
    while i < a.len()
        invariant
            i <= a.len(),
            forall|k: int, j: int| 0 <= k < i && 0 <= j < b.len() ==> a@[k] != b@[j],
        decreases a.len() - i,
    {
        if contains_id(b, a[i]) {
            proof {
                let j = choose|j: int| 0 <= j < b@.len() && b@[j] == a@[i as int];
                assert(a@[i as int] == b@[j]);
            }
            return false;
        }
        i += 1;
    }
    true
}

/// Copies the rows of the data files.
fn copy_files(rows: &Vec<ParquetFile>) -> (copy: Vec<ParquetFile>)
    ensures
        views(copy@) == views(rows@),
{
    let mut copy: Vec<ParquetFile> = Vec::new();
    let mut i: usize = 0;
    while i < rows.len()
        invariant
            i <= rows.len(),
            copy@.len() == i,
            forall|j: int| 0 <= j < i ==> (#[trigger] copy@[j])@ == rows@[j]@,
        decreases rows.len() - i,
    {
        copy.push(rows[i].clone());
        i += 1;
    }
    assert(views(copy@) =~= views(rows@));
    copy
}

/// Copies the rows of the partitions.
fn copy_partitions(rows: &Vec<Partition>) -> (copy: Vec<Partition>)
    ensures
        views(copy@) == views(rows@),
{
    let mut copy: Vec<Partition> = Vec::new();
    let mut i: usize = 0;
    while i < rows.len()
        invariant
            i <= rows.len(),
            copy@.len() == i,
            forall|j: int| 0 <= j < i ==> (#[trigger] copy@[j])@ == rows@[j]@,
        decreases rows.len() - i,
    {
        copy.push(rows[i].clone());
        i += 1;
    }
    assert(views(copy@) =~= views(rows@));
    copy
}

impl MemCatalog {
    /// A retirement that fails for a prefix of the ids fails in the same way for all of
    /// them.
    proof fn lemma_retire_each_fails(
        s: CatalogState,
        ids: Seq<ParquetFileId>,
        at: Timestamp,
        n: int,
    )
        requires
            0 <= n <= ids.len(),
            s.retire_each(ids.take(n), at) is Err,
        ensures
            s.retire_each(ids, at) == s.retire_each(ids.take(n), at),
        decreases ids.len() - n,
    {
        if n < ids.len() {
            assert(ids.take(n + 1).drop_last() =~= ids.take(n));
            Self::lemma_retire_each_fails(s, ids, at, n + 1);
        } else {
            assert(ids.take(n) =~= ids);
        }
    }

    /// A creation that fails for a prefix of the parameters fails in the same way for all
    /// of them.
    proof fn lemma_create_each_fails(s: CatalogState, params: Seq<ParquetFileParamsView>, n: int)
        requires
            0 <= n <= params.len(),
            s.create_each(params.take(n)) is Err,
        ensures
            s.create_each(params) == s.create_each(params.take(n)),
        decreases params.len() - n,
    {
        if n < params.len() {
            assert(params.take(n + 1).drop_last() =~= params.take(n));
            Self::lemma_create_each_fails(s, params, n + 1);
        } else {
            assert(params.take(n) =~= params);
        }
    }

    /// Puts the data files, the partitions and the id of the next data file back.
    fn restore(&mut self, files: Vec<ParquetFile>, partitions: Vec<Partition>, next_id: i64)
        ensures
            final(self)@ == (CatalogState {
                parquet_files: views(files@),
                partitions: views(partitions@),
                next_parquet_file_id: next_id,
                ..old(self)@
            }),
    {
        self.parquet_files = files;
        self.partitions = partitions;
        self.next_parquet_file_id = next_id;
    }
}

/// Whether a transition and its next step stand where the catalog stands: the steps that
/// were taken are the steps of the transition up to the stage and the place of the
/// transition, and they took the catalog from `before` to `current`.
#[verifier::opaque]
pub open spec fn on_course(
    t: TransitionView,
    step: StepView,
    before: CatalogState,
    current: CatalogState,
    delete: Seq<ParquetFileId>,
    upgrade: Seq<ParquetFileId>,
    create: Seq<ParquetFileParamsView>,
    target_level: CompactionLevel,
    now: Timestamp,
) -> bool {
    match t.stage {
        Stage::Beginning => {
            &&& step == StepView::Begin
            &&& t.created == Seq::<ParquetFileId>::empty()
            &&& current == before
        },
        Stage::Retiring => {
            &&& step == StepView::Retire(delete[t.at])
            &&& t.created == Seq::<ParquetFileId>::empty()
            &&& before.retire_each(delete.take(t.at), now) == Ok::<CatalogState, CatalogErrorView>(
                current,
            )
        },
        Stage::Promoting => {
            &&& step == StepView::Promote
            &&& t.created == Seq::<ParquetFileId>::empty()
            &&& before.retire_each(delete, now) == Ok::<CatalogState, CatalogErrorView>(current)
        },
        Stage::Creating => {
            &&& step == StepView::Create(t.at)
            &&& before.retire_each(delete, now) matches Ok(retired) && retired.promote_all(
                upgrade,
                target_level,
            ) matches Ok(promoted) && promoted.create_each(create.take(t.at)) == Ok::<
                (CatalogState, Seq<ParquetFileId>),
                CatalogErrorView,
            >((current, t.created))
        },
        Stage::Committing => {
            &&& step == StepView::Commit
            &&& before.retire_each(delete, now) matches Ok(retired) && retired.promote_all(
                upgrade,
                target_level,
            ) matches Ok(promoted) && promoted.create_each(create) == Ok::<
                (CatalogState, Seq<ParquetFileId>),
                CatalogErrorView,
            >((current, t.created))
        },
        Stage::Finished => {
            let end = before.create_upgrade_delete(delete, upgrade, create, target_level, now);
            match step {
                StepView::Finish(Ok(ids)) => end == (
                    current,
                    Ok::<Seq<ParquetFileId>, CatalogErrorView>(ids),
                ),
                StepView::Finish(Err(e)) => end.1 == Err::<Seq<ParquetFileId>, CatalogErrorView>(e),
                _ => false,
            }
        },
    }
}

/// Whether the event is what the catalog in memory answers to the step of the
/// transition, and `next` the catalog after that step. In memory a transaction always
/// starts and commits.
pub open spec fn answered(
    t: TransitionView,
    event: EventView,
    current: CatalogState,
    next: CatalogState,
    delete: Seq<ParquetFileId>,
    upgrade: Seq<ParquetFileId>,
    create: Seq<ParquetFileParamsView>,
    target_level: CompactionLevel,
    now: Timestamp,
) -> bool {
    match t.stage {
        Stage::Beginning => event == EventView::Begun(Ok(())) && next == current,
        Stage::Retiring => {
            let (after, touched) = current.flag_file(delete[t.at], now);
            event == EventView::Retired(Ok(touched)) && next == after
        },
        Stage::Promoting => {
            let (after, updated) = current.set_compaction_level(upgrade, target_level);
            event == EventView::Promoted(Ok(updated)) && next == after
        },
        Stage::Creating => {
            let (after, created) = current.create_file(create[t.at]);
            next == after && event == EventView::Created(
                match created {
                    Ok(row) => Ok(row.id),
                    Err(e) => Err(e),
                },
            )
        },
        Stage::Committing => event == EventView::Committed(Ok(())) && next == current,
        Stage::Finished => false,
    }
}

/// A step tells the stage of the transition that asks for it, and the last step tells
/// how the transition ends.
proof fn lemma_course_stage(
    t: TransitionView,
    step: StepView,
    before: CatalogState,
    current: CatalogState,
    delete: Seq<ParquetFileId>,
    upgrade: Seq<ParquetFileId>,
    create: Seq<ParquetFileParamsView>,
    target_level: CompactionLevel,
    now: Timestamp,
)
    requires
        on_course(t, step, before, current, delete, upgrade, create, target_level, now),
    ensures
        match step {
            StepView::Begin => t.stage == Stage::Beginning,
            StepView::Retire(id) => t.stage == Stage::Retiring && id == delete[t.at],
            StepView::Promote => t.stage == Stage::Promoting,
            StepView::Create(at) => t.stage == Stage::Creating && at == t.at,
            StepView::Commit => t.stage == Stage::Committing,
            StepView::Finish(answer) => {
                let end = before.create_upgrade_delete(delete, upgrade, create, target_level, now);
                &&& t.stage == Stage::Finished
                &&& end.1 == answer
                &&& answer is Ok ==> end.0 == current
                &&& answer is Err ==> end.0 == before
            },
        },
{
    reveal(on_course);
}

/// A transition that is on course stays on course over a step that the catalog in memory
/// answers.
proof fn lemma_course_advances(
    t: TransitionView,
    step: StepView,
    event: EventView,
    before: CatalogState,
    current: CatalogState,
    next: CatalogState,
    delete: Seq<ParquetFileId>,
    upgrade: Seq<ParquetFileId>,
    create: Seq<ParquetFileParamsView>,
    target_level: CompactionLevel,
    now: Timestamp,
)
    requires
        t.fits(delete, create.len() as int),
        on_course(t, step, before, current, delete, upgrade, create, target_level, now),
        answered(t, event, current, next, delete, upgrade, create, target_level, now),
    ensures
        ({
            let (after, following) = t.advanced(event, delete, upgrade, create.len() as int);
            on_course(after, following, before, next, delete, upgrade, create, target_level, now)
        }),
{
    reveal(on_course);
    assert(delete.take(0) =~= Seq::<ParquetFileId>::empty());
    assert(delete.take(delete.len() as int) =~= delete);
    assert(create.take(0) =~= Seq::<ParquetFileParamsView>::empty());
    assert(create.take(create.len() as int) =~= create);
    match t.stage {
        Stage::Retiring => {
            assert(delete.take(t.at + 1).drop_last() =~= delete.take(t.at));
            assert(delete.take(t.at + 1).last() == delete[t.at]);
            if before.retire_each(delete.take(t.at + 1), now) is Err {
                MemCatalog::lemma_retire_each_fails(before, delete, now, t.at + 1);
            }
        },
        Stage::Creating => {
            let promoted = before.retire_each(delete, now)->Ok_0.promote_all(
                upgrade,
                target_level,
            )->Ok_0;
            assert(create.take(t.at + 1).drop_last() =~= create.take(t.at));
            assert(create.take(t.at + 1).last() == create[t.at]);
            if promoted.create_each(create.take(t.at + 1)) is Err {
                MemCatalog::lemma_create_each_fails(promoted, create, t.at + 1);
            }
        },
        _ => {},
    }
}

/// The transition of a compaction: marks the files of `delete` as deleted at `now`, gives
/// the files of `upgrade` the level `target_level`, and creates a file from each entry of
/// `create`, all of it or nothing. It hands out the ids of the files that it created, in
/// the order of `create`.
pub fn create_upgrade_delete(
    repos: &mut MemCatalog,
    delete: &[ParquetFileId],
    upgrade: &[ParquetFileId],
    create: &[ParquetFileParams],
    target_level: CompactionLevel,
    now: Timestamp,
) -> (r: Result<Vec<ParquetFileId>, CatalogError>)
    requires
        old(repos).wf(),
        disjoint(delete@, upgrade@),
    ensures
        final(repos).wf(),
        (final(repos)@, result_seq(r)) == old(repos)@.create_upgrade_delete(
            delete@,
            upgrade@,
            views(create@),
            target_level,
            now,
        ),
{
    // what a transaction that is rolled back puts back
    let files = copy_files(&repos.parquet_files);
    let partitions = copy_partitions(&repos.partitions);
    let next_id = repos.next_parquet_file_id;
    let ghost before = repos@;
    let ghost new_files = views(create@);
    let (mut transition, mut step) = Transition::start();
    proof {
        reveal(on_course);
    }
    loop
        invariant
            repos.wf(),
            before == old(repos)@,
            before.wf(),
            new_files == views(create@),
            same_but_files(repos@, before),
            views(files@) == before.parquet_files,
            views(partitions@) == before.partitions,
            next_id == before.next_parquet_file_id,
            transition.fits(delete@, create@.len() as int),
            on_course(
                transition@,
                step@,
                before,
                repos@,
                delete@,
                upgrade@,
                new_files,
                target_level,
                now,
            ),
        decreases transition@.steps_left(delete@, create@.len() as int),
    {
        let ghost t = transition@;
        let ghost asked = step@;
        let ghost current = repos@;
        proof {
            lemma_course_stage(
                t,
                asked,
                before,
                current,
                delete@,
                upgrade@,
                new_files,
                target_level,
                now,
            );
        }
        let event = match step {
            Step::Begin => Event::Begun(Ok(())),
            Step::Retire(id) => Event::Retired(Ok(repos.flag_file(id, now))),
            Step::Promote => Event::Promoted(
                Ok(repos.set_compaction_level(upgrade, target_level)),
            ),
            Step::Create(at) => {
                let outcome = repos.insert_file(&create[at]);
                match create_result(outcome, create[at].object_store_id) {
                    Ok(file) => Event::Created(Ok(file.id)),
                    Err(e) => Event::Created(Err(e)),
                }
            },
            Step::Commit => Event::Committed(Ok(())),
            Step::Finish(answer) => {
                if answer.is_err() {
                    repos.restore(files, partitions, next_id);
                }
                return answer;
            },
        };
        proof {
            lemma_course_advances(
                t,
                asked,
                event@,
                before,
                current,
                repos@,
                delete@,
                upgrade@,
                new_files,
                target_level,
                now,
            );
        }
        step = transition.advance(event, delete, upgrade, create.len());
    }
}

} // verus!
