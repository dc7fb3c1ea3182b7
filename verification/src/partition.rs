//! The partition repository: creation on first use, the compare-and-swap of the sort
//! key, the bookkeeping of skipped compactions, and the queries by which partitions are
//! discovered.

use crate::error::{
    result_option_view, result_plain, result_seq, result_view, result_views, CasFailure,
    CasFailureView, CatalogError, CatalogErrorView,
};
use crate::mem::MemCatalog;
use crate::model::{PartitionId, TableId, Timestamp};
use crate::outcome::{list_result, lookup_result, plain_error, plain_failure, row_outcome};
use crate::rows::{
    clone_strings, string_views, Partition, PartitionKey, PartitionView, SkippedCompaction,
    SkippedCompactionView,
};
use crate::seqs::{
    any, find, lemma_filter_next, lemma_filter_none, lemma_position_is, lemma_views_push,
    lemma_views_remove, lemma_views_update, position, views,
};
use crate::sql::{PARTITION_NEW_FILE_BETWEEN, PARTITION_NEW_FILE_SINCE};
use crate::state::{
    lemma_partition_added, lemma_partitions_changed, partition_in_table, partition_keyed,
    partition_with_id, skipped_of, table_with_id, CatalogState,
};
use crate::store_error::StoreFailure;
use crate::table::place_by_id as table_place;
use vstd::prelude::*;

verus! {

/// The partition of the given id, if its sort key is the given one.
pub open spec fn partition_sorted_by(id: PartitionId, sort_key: Seq<Seq<char>>) -> spec_fn(
    PartitionView,
) -> bool {
    |p: PartitionView| p.id == id && p.sort_key == sort_key
}

impl CatalogState {
    /// The statement that creates a partition or gets the one that exists: a partition of
    /// that key in that table is yielded as it is; otherwise the insert is refused where
    /// the table is missing, and else the partition gets the next id, an empty sort key
    /// and no time of a last file.
    pub open spec fn upsert_partition(self, key: Seq<char>, table_id: TableId) -> (
        CatalogState,
        Result<PartitionView, StoreFailure>,
    ) {
        match find(self.partitions, partition_keyed(table_id, key)) {
            Some(existing) => (self, Ok(existing)),
            None => {
                if !any(self.tables, table_with_id(table_id)) {
                    (self, Err(StoreFailure::ForeignKeyViolation))
                } else if self.next_partition_id == i64::MAX {
                    (self, Err(StoreFailure::Other))
                } else {
                    let row = PartitionView {
                        id: PartitionId(self.next_partition_id),
                        table_id,
                        partition_key: key,
                        sort_key: Seq::empty(),
                        new_file_at: None,
                    };
                    (
                        CatalogState {
                            partitions: self.partitions.push(row),
                            next_partition_id: (self.next_partition_id + 1) as i64,
                            ..self
                        },
                        Ok(row),
                    )
                }
            },
        }
    }

    /// Creating a partition or getting the one that exists.
    pub open spec fn create_or_get_partition(self, key: Seq<char>, table_id: TableId) -> (
        CatalogState,
        Result<PartitionView, CatalogErrorView>,
    ) {
        let (after, outcome) = self.upsert_partition(key, table_id);
        (after, created_or_got(outcome))
    }

    /// The partition of the given id.
    pub open spec fn partition_by_id(self, id: PartitionId) -> Option<PartitionView> {
        find(self.partitions, partition_with_id(id))
    }

    /// The partitions of the given table, in the order of their ids.
    pub open spec fn partitions_of(self, table_id: TableId) -> Seq<PartitionView> {
        self.partitions.filter(partition_in_table(table_id))
    }

    /// The ids of all partitions, in ascending order.
    pub open spec fn partition_ids(self) -> Seq<PartitionId> {
        self.partitions.map_values(|p: PartitionView| p.id)
    }

    /// The statement that sets the sort key of the partition of the given id, on the
    /// condition that its sort key is the expected one; it yields no row where no
    /// partition meets both.
    pub open spec fn update_sort_key(
        self,
        id: PartitionId,
        expected: Seq<Seq<char>>,
        new: Seq<Seq<char>>,
    ) -> (CatalogState, Result<PartitionView, StoreFailure>) {
        match position(self.partitions, partition_sorted_by(id, expected)) {
            Some(i) => {
                let row = PartitionView { sort_key: new, ..self.partitions[i] };
                (CatalogState { partitions: self.partitions.update(i, row), ..self }, Ok(row))
            },
            None => (self, Err(StoreFailure::RowNotFound)),
        }
    }

    /// The compare-and-swap of a sort key: the update, and where it yields no row, the
    /// read of the partition as it stands after the refused update.
    pub open spec fn cas_sort_key(
        self,
        id: PartitionId,
        expected: Seq<Seq<char>>,
        new: Seq<Seq<char>>,
    ) -> (CatalogState, Result<PartitionView, CasFailureView>) {
        let (after, outcome) = self.update_sort_key(id, expected, new);
        match swapped(outcome) {
            Some(answer) => (after, answer),
            None => (after, Err(refused(Ok(after.partition_by_id(id)), id))),
        }
    }
}

/// What `create_or_get` reports for the outcome of its statement.
pub open spec fn created_or_got(outcome: Result<PartitionView, StoreFailure>) -> Result<
    PartitionView,
    CatalogErrorView,
> {
    match outcome {
        Ok(row) => Ok(row),
        Err(f) => Err(plain_failure(f)),
    }
}

/// The answer of a compare-and-swap after its update, where the update decides it: the
/// partition where the update yields it, a failure of the store where the update failed.
/// Where the update yields no row nothing is decided: the partition is missing or its
/// sort key is another, and a read has to tell which.
pub open spec fn swapped(outcome: Result<PartitionView, StoreFailure>) -> Option<
    Result<PartitionView, CasFailureView>,
> {
    match outcome {
        Ok(row) => Some(Ok(row)),
        Err(StoreFailure::RowNotFound) => None,
        Err(_) => Some(Err(CasFailureView::QueryError(CatalogErrorView::SqlxError))),
    }
}

/// Why a compare-and-swap did not take effect, by the read that followed the refused
/// update: the partition that was read carries another sort key, which is reported; no
/// partition means that the partition is missing; a failed read is reported as such.
pub open spec fn refused(read: Result<Option<PartitionView>, CatalogErrorView>, id: PartitionId)
    -> CasFailureView {
    match read {
        Ok(Some(row)) => CasFailureView::ValueMismatch(row.sort_key),
        Ok(None) => CasFailureView::QueryError(CatalogErrorView::PartitionNotFound { id }),
        Err(e) => CasFailureView::QueryError(e),
    }
}

/// The view of the failure of a compare-and-swap on a sort key.
pub open spec fn failure_view(f: CasFailure<Vec<String>>) -> CasFailureView {
    match f {
        CasFailure::ValueMismatch(key) => CasFailureView::ValueMismatch(string_views(key@)),
        CasFailure::QueryError(e) => CasFailureView::QueryError(e@),
    }
}

/// The view of the answer of a compare-and-swap on a sort key.
pub open spec fn cas_view(r: Result<Partition, CasFailure<Vec<String>>>) -> Result<
    PartitionView,
    CasFailureView,
> {
    match r {
        Ok(row) => Ok(row@),
        Err(f) => Err(failure_view(f)),
    }
}

/// Reports the outcome of the statement of `create_or_get`.
pub fn create_or_get_result(outcome: Result<Partition, StoreFailure>) -> (r: Result<
    Partition,
    CatalogError,
>)
    ensures
        result_view(r) == created_or_got(row_outcome(outcome)),
{
    match outcome {
        Ok(row) => Ok(row),
        Err(f) => Err(plain_error(f)),
    }
}

/// Decides the answer of a compare-and-swap from the outcome of its update, where the
/// update decides it; gives nothing where a read has to follow.
pub fn cas_update_result(outcome: Result<Partition, StoreFailure>) -> (r: Option<
    Result<Partition, CasFailure<Vec<String>>>,
>)
    ensures
        match r {
            Some(answer) => swapped(row_outcome(outcome)) == Some(cas_view(answer)),
            None => swapped(row_outcome(outcome)) is None,
        },
{
    match outcome {
        Ok(row) => Some(Ok(row)),
        Err(StoreFailure::RowNotFound) => None,
        Err(_) => Some(Err(CasFailure::QueryError(CatalogError::SqlxError))),
    }
}

/// Says why a compare-and-swap did not take effect, from the read that followed the
/// refused update.
pub fn cas_read_result(read: Result<Option<Partition>, CatalogError>, partition_id: PartitionId)
    -> (f: CasFailure<Vec<String>>)
    ensures
        failure_view(f) == refused(result_option_view(read), partition_id),
{
    match read {
        Ok(Some(row)) => CasFailure::ValueMismatch(row.sort_key),
        Ok(None) => CasFailure::QueryError(CatalogError::PartitionNotFound { id: partition_id }),
        Err(e) => CasFailure::QueryError(e),
    }
}

/// Where the partition of the given id stands.
pub(crate) fn place_by_id(rows: &Vec<Partition>, id: PartitionId) -> (at: Option<usize>)
    ensures
        match at {
            Some(i) => position(views(rows@), partition_with_id(id)) == Some(i as int),
            None => position(views(rows@), partition_with_id(id)) is None,
        },
        any(views(rows@), partition_with_id(id)) == at is Some,
{
    let ghost p = partition_with_id(id);
    let mut i: usize = 0;
    while i < rows.len()
        invariant
            i <= rows.len(),
            p == partition_with_id(id),
            forall|j: int| 0 <= j < i ==> !p(#[trigger] views(rows@)[j]),
        decreases rows.len() - i,
    {
        if rows[i].id == id {
            proof {
                lemma_position_is(views(rows@), p, i as int);
            }
            return Some(i);
        }
        i += 1;
    }
    None
}

/// Where the partition of the given key in the given table stands.
fn place_by_key(rows: &Vec<Partition>, table_id: TableId, key: &PartitionKey) -> (at: Option<
    usize,
>)
    ensures
        match at {
            Some(i) => position(views(rows@), partition_keyed(table_id, key@)) == Some(i as int),
            None => position(views(rows@), partition_keyed(table_id, key@)) is None,
        },
        any(views(rows@), partition_keyed(table_id, key@)) == at is Some,
{
    let ghost p = partition_keyed(table_id, key@);
    let mut i: usize = 0;
    while i < rows.len()
        invariant
            i <= rows.len(),
            p == partition_keyed(table_id, key@),
            forall|j: int| 0 <= j < i ==> !p(#[trigger] views(rows@)[j]),
        decreases rows.len() - i,
    {
        if rows[i].table_id == table_id && rows[i].partition_key.0 == key.0 {
            proof {
                lemma_position_is(views(rows@), p, i as int);
            }
            return Some(i);
        }
        i += 1;
    }
    None
}

/// Tells whether two sort keys name the same columns in the same order.
pub fn same_sort_key(a: &Vec<String>, b: &Vec<String>) -> (same: bool)
    ensures
        same == (string_views(a@) == string_views(b@)),
{
    if a.len() != b.len() {
        assert(string_views(a@).len() != string_views(b@).len());
        return false;
    }
    let mut i: usize = 0;
    while i < a.len()
        invariant
            i <= a.len(),
            a.len() == b.len(),
            forall|j: int| 0 <= j < i ==> a@[j]@ == b@[j]@,
        decreases a.len() - i,
    {
        if a[i] != b[i] {
            assert(string_views(a@)[i as int] != string_views(b@)[i as int]);
            return false;
        }
        i += 1;
    }
    assert(string_views(a@) =~= string_views(b@));
    true
}

/// The sort key that holds the given names.
pub fn sort_key_of(names: &[&str]) -> (key: Vec<String>)
    ensures
        string_views(key@) == names@.map_values(|n: &str| n@),
{
    let mut key: Vec<String> = Vec::new();
    let mut i: usize = 0;
    while i < names.len()
        invariant
            i <= names.len(),
            key@.len() == i,
            forall|j: int| 0 <= j < i ==> (#[trigger] key@[j])@ == names@[j]@,
        decreases names.len() - i,
    {
        key.push(names[i].to_string());
        i += 1;
    }
    assert(string_views(key@) =~= names@.map_values(|n: &str| n@));
    key
}

/// Where the partition of the given id stands, if its sort key is the given one.
fn place_sorted_by(rows: &Vec<Partition>, id: PartitionId, sort_key: &Vec<String>) -> (at: Option<
    usize,
>)
    ensures
        match at {
            Some(i) => position(
                views(rows@),
                partition_sorted_by(id, string_views(sort_key@)),
            ) == Some(i as int),
            None => position(views(rows@), partition_sorted_by(id, string_views(sort_key@)))
                is None,
        },
{
    let ghost p = partition_sorted_by(id, string_views(sort_key@));
    let mut i: usize = 0;
    while i < rows.len()
        invariant
            i <= rows.len(),
            p == partition_sorted_by(id, string_views(sort_key@)),
            forall|j: int| 0 <= j < i ==> !p(#[trigger] views(rows@)[j]),
        decreases rows.len() - i,
    {
        if rows[i].id == id && same_sort_key(&rows[i].sort_key, sort_key) {
            proof {
                lemma_position_is(views(rows@), p, i as int);
            }
            return Some(i);
        }
        i += 1;
    }
    None
}

impl MemCatalog {
    /// Runs the statement that creates a partition or gets the one that exists.
    fn upsert_partition(&mut self, key: PartitionKey, table_id: TableId) -> (outcome: Result<
        Partition,
        StoreFailure,
    >)
        requires
            old(self).wf(),
        ensures
            final(self).wf(),
            (final(self)@, row_outcome(outcome)) == old(self)@.upsert_partition(key@, table_id),
    {
        match place_by_key(&self.partitions, table_id, &key) {
            Some(i) => Ok(self.partitions[i].clone()),
            None => {
                if table_place(&self.tables, table_id).is_none() {
                    return Err(StoreFailure::ForeignKeyViolation);
                }
                if self.next_partition_id == i64::MAX {
                    return Err(StoreFailure::Other);
                }
                let row = Partition {
                    id: PartitionId(self.next_partition_id),
                    table_id,
                    partition_key: key,
                    sort_key: Vec::new(),
                    new_file_at: None,
                };
                let stored = row.clone();
                proof {
                    assert(row@.sort_key =~= Seq::<Seq<char>>::empty());
                    lemma_views_push(self.partitions@, stored);
                    lemma_partition_added(
                        self@,
                        old(self)@.upsert_partition(key@, table_id).0,
                        row@,
                    );
                }
                self.partitions.push(stored);
                self.next_partition_id = self.next_partition_id + 1;
                Ok(row)
            },
        }
    }

    /// Runs the statement that sets a sort key on condition.
    fn update_sort_key(
        &mut self,
        partition_id: PartitionId,
        expected: &Vec<String>,
        new: &Vec<String>,
    ) -> (outcome: Result<Partition, StoreFailure>)
        requires
            old(self).wf(),
        ensures
            final(self).wf(),
            (final(self)@, row_outcome(outcome)) == old(self)@.update_sort_key(
                partition_id,
                string_views(expected@),
                string_views(new@),
            ),
    {
        let i = match place_sorted_by(&self.partitions, partition_id, expected) {
            Some(i) => i,
            None => {
                return Err(StoreFailure::RowNotFound);
            },
        };
        let row = Partition {
            id: self.partitions[i].id,
            table_id: self.partitions[i].table_id,
            partition_key: self.partitions[i].partition_key.clone(),
            sort_key: clone_strings(new),
            new_file_at: self.partitions[i].new_file_at,
        };
        let stored = row.clone();
        proof {
            lemma_views_update(self.partitions@, i as int, stored);
            lemma_partitions_changed(
                self@,
                old(self)@.update_sort_key(
                    partition_id,
                    string_views(expected@),
                    string_views(new@),
                ).0,
            );
        }
        self.partitions[i] = stored;
        Ok(row)
    }
}

/// Creates the partition of the given key in a table, or gets the one that exists.
pub fn create_or_get(repos: &mut MemCatalog, key: PartitionKey, table_id: TableId) -> (r: Result<
    Partition,
    CatalogError,
>)
    requires
        old(repos).wf(),
    ensures
        final(repos).wf(),
        (final(repos)@, result_view(r)) == old(repos)@.create_or_get_partition(key@, table_id),
{
    let outcome = repos.upsert_partition(key, table_id);
    create_or_get_result(outcome)
}

/// Looks for the partition of the given id.
pub fn get_by_id(repos: &MemCatalog, partition_id: PartitionId) -> (r: Result<
    Option<Partition>,
    CatalogError,
>)
    ensures
        result_option_view(r) == Ok::<Option<PartitionView>, CatalogErrorView>(
            repos@.partition_by_id(partition_id),
        ),
{
    match place_by_id(&repos.partitions, partition_id) {
        Some(i) => lookup_result(Ok(repos.partitions[i].clone())),
        None => lookup_result(Err(StoreFailure::RowNotFound)),
    }
}

/// Sets the sort key of a partition to `new_sort_key` if and only if it is `old_sort_key`;
/// no sort key stands for the empty one. Where the sort key is another, the answer
/// carries the sort key as it was read after the update was refused.
pub fn cas_sort_key(
    repos: &mut MemCatalog,
    partition_id: PartitionId,
    old_sort_key: Option<Vec<String>>,
    new_sort_key: &[&str],
) -> (r: Result<Partition, CasFailure<Vec<String>>>)
    requires
        old(repos).wf(),
    ensures
        final(repos).wf(),
        (final(repos)@, cas_view(r)) == old(repos)@.cas_sort_key(
            partition_id,
            match old_sort_key {
                Some(key) => string_views(key@),
                None => Seq::empty(),
            },
            new_sort_key@.map_values(|n: &str| n@),
        ),
{
    let expected = match old_sort_key {
        Some(key) => key,
        None => Vec::new(),
    };
    proof {
        assert(string_views(Seq::<String>::empty()) =~= Seq::<Seq<char>>::empty());
    }
    let new = sort_key_of(new_sort_key);
    let outcome = repos.update_sort_key(partition_id, &expected, &new);
    match cas_update_result(outcome) {
        Some(answer) => answer,
        None => {
            let read = get_by_id(repos, partition_id);
            Err(cas_read_result(read, partition_id))
        },
    }
}


/// Partitions in which a file arrived after `minimum_time` and, where a maximum is given,
/// before `maximum_time`.
pub open spec fn new_file_between(minimum_time: Timestamp, maximum_time: Option<Timestamp>)
    -> spec_fn(PartitionView) -> bool {
    |p: PartitionView|
        match p.new_file_at {
            Some(at) => at.0 > minimum_time.0 && match maximum_time {
                Some(max) => at.0 < max.0,
                None => true,
            },
            None => false,
        }
}

impl CatalogState {
    /// The statement that records a skipped compaction: refused where the partition is
    /// missing; otherwise the record takes the place of the one that the partition has,
    /// or is appended.
    pub open spec fn upsert_skipped_compaction(self, row: SkippedCompactionView) -> (
        CatalogState,
        Result<(), StoreFailure>,
    ) {
        if !any(self.partitions, partition_with_id(row.partition_id)) {
            (self, Err(StoreFailure::ForeignKeyViolation))
        } else {
            match position(self.skipped_compactions, skipped_of(row.partition_id)) {
                Some(i) => (
                    CatalogState {
                        skipped_compactions: self.skipped_compactions.update(i, row),
                        ..self
                    },
                    Ok(()),
                ),
                None => (
                    CatalogState {
                        skipped_compactions: self.skipped_compactions.push(row),
                        ..self
                    },
                    Ok(()),
                ),
            }
        }
    }

    /// Recording a skipped compaction.
    pub open spec fn record_skipped_compaction(self, row: SkippedCompactionView) -> (
        CatalogState,
        Result<(), CatalogErrorView>,
    ) {
        let (after, outcome) = self.upsert_skipped_compaction(row);
        (after, recorded(outcome, row.partition_id))
    }

    /// The skipped compaction of the given partition.
    pub open spec fn skipped_compaction_of(self, partition_id: PartitionId) -> Option<
        SkippedCompactionView,
    > {
        find(self.skipped_compactions, skipped_of(partition_id))
    }

    /// Deleting the skipped compaction of the given partition: the record leaves and is
    /// yielded, if there is one.
    pub open spec fn delete_skipped_compaction(self, partition_id: PartitionId) -> (
        CatalogState,
        Option<SkippedCompactionView>,
    ) {
        match position(self.skipped_compactions, skipped_of(partition_id)) {
            Some(i) => (
                CatalogState { skipped_compactions: self.skipped_compactions.remove(i), ..self },
                Some(self.skipped_compactions[i]),
            ),
            None => (self, None),
        }
    }

    /// The `n` partitions of the highest ids, highest first; all of them where there are
    /// fewer.
    pub open spec fn most_recent_partitions(self, n: nat) -> Seq<PartitionView> {
        let count = if n <= self.partitions.len() {
            n
        } else {
            self.partitions.len()
        };
        Seq::new(count, |j: int| self.partitions[self.partitions.len() - 1 - j])
    }

    /// The ids of the partitions in which a file arrived in the given span of time, in
    /// ascending order.
    pub open spec fn partitions_with_new_file(
        self,
        minimum_time: Timestamp,
        maximum_time: Option<Timestamp>,
    ) -> Seq<PartitionId> {
        self.partitions.filter(new_file_between(minimum_time, maximum_time)).map_values(
            |p: PartitionView| p.id,
        )
    }
}

/// What `record_skipped_compaction` reports for the outcome of its statement.
pub open spec fn recorded(outcome: Result<(), StoreFailure>, partition_id: PartitionId) -> Result<
    (),
    CatalogErrorView,
> {
    match outcome {
        Ok(_) => Ok(()),
        Err(_) => Err(CatalogErrorView::CouldNotRecordSkippedCompaction { partition_id }),
    }
}

/// Reports the outcome of the statement of `record_skipped_compaction`.
pub fn record_skipped_compaction_result(
    outcome: Result<(), StoreFailure>,
    partition_id: PartitionId,
) -> (r: Result<(), CatalogError>)
    ensures
        result_plain(r) == recorded(outcome, partition_id),
{
    match outcome {
        Ok(_) => Ok(()),
        Err(_) => Err(CatalogError::CouldNotRecordSkippedCompaction { partition_id }),
    }
}

/// Reports the outcome of the query of `list_skipped_compactions`.
pub fn list_skipped_compactions_result(outcome: Result<Vec<SkippedCompaction>, StoreFailure>) -> (r:
    Result<Vec<SkippedCompaction>, CatalogError>)
    ensures
        match outcome {
            Ok(rows) => r == Ok::<Vec<SkippedCompaction>, CatalogError>(rows),
            Err(_) => r == Err::<Vec<SkippedCompaction>, CatalogError>(
                CatalogError::CouldNotListSkippedCompactions,
            ),
        },
{
    match outcome {
        Ok(rows) => Ok(rows),
        Err(_) => Err(CatalogError::CouldNotListSkippedCompactions),
    }
}

/// Reports the outcome of the statement of `delete_skipped_compactions`.
pub fn delete_skipped_compactions_result(
    outcome: Result<Option<SkippedCompaction>, StoreFailure>,
) -> (r: Result<Option<SkippedCompaction>, CatalogError>)
    ensures
        match outcome {
            Ok(row) => r == Ok::<Option<SkippedCompaction>, CatalogError>(row),
            Err(_) => r == Err::<Option<SkippedCompaction>, CatalogError>(
                CatalogError::CouldNotDeleteSkippedCompactions,
            ),
        },
{
    match outcome {
        Ok(row) => Ok(row),
        Err(_) => Err(CatalogError::CouldNotDeleteSkippedCompactions),
    }
}

/// The query that finds the partitions in which a file arrived in a span of time; the
/// upper bound is part of it only where one is given.
pub fn new_file_between_query(maximum_time: Option<Timestamp>) -> (sql: &'static str)
    ensures
        sql@ == match maximum_time {
            Some(_) => PARTITION_NEW_FILE_BETWEEN@,
            None => PARTITION_NEW_FILE_SINCE@,
        },
{
    match maximum_time {
        Some(_) => PARTITION_NEW_FILE_BETWEEN,
        None => PARTITION_NEW_FILE_SINCE,
    }
}

/// Where the skipped compaction of the given partition stands.
fn place_of_skipped(rows: &Vec<SkippedCompaction>, partition_id: PartitionId) -> (at: Option<usize>)
    ensures
        match at {
            Some(i) => position(views(rows@), skipped_of(partition_id)) == Some(i as int),
            None => position(views(rows@), skipped_of(partition_id)) is None,
        },
        any(views(rows@), skipped_of(partition_id)) == at is Some,
{
    let ghost p = skipped_of(partition_id);
    let mut i: usize = 0;
    while i < rows.len()
        invariant
            i <= rows.len(),
            p == skipped_of(partition_id),
            forall|j: int| 0 <= j < i ==> !p(#[trigger] views(rows@)[j]),
        decreases rows.len() - i,
    {
        if rows[i].partition_id == partition_id {
            proof {
                lemma_position_is(views(rows@), p, i as int);
            }
            return Some(i);
        }
        i += 1;
    }
    None
}

impl MemCatalog {
    /// Runs the statement that records a skipped compaction.
    fn upsert_skipped_compaction(&mut self, row: SkippedCompaction) -> (outcome: Result<
        (),
        StoreFailure,
    >)
        requires
            old(self).wf(),
        ensures
            final(self).wf(),
            (final(self)@, outcome) == old(self)@.upsert_skipped_compaction(row@),
    {
        if place_by_id(&self.partitions, row.partition_id).is_none() {
            return Err(StoreFailure::ForeignKeyViolation);
        }
        let ghost before = self@.skipped_compactions;
        match place_of_skipped(&self.skipped_compactions, row.partition_id) {
            Some(i) => {
                proof {
                    lemma_views_update(self.skipped_compactions@, i as int, row);
                }
                self.skipped_compactions[i] = row;
                proof {
                    let after = self@.skipped_compactions;
                    assert forall|a: int, b: int| 0 <= a < b < after.len() implies (
                    #[trigger] after[a]).partition_id != (#[trigger] after[b]).partition_id by {
                        assert(after[a].partition_id == before[a].partition_id);
                        assert(after[b].partition_id == before[b].partition_id);
                    }
                    assert forall|a: int| 0 <= a < after.len() implies any(
                        self@.partitions,
                        partition_with_id((#[trigger] after[a]).partition_id),
                    ) by {
                        assert(after[a].partition_id == before[a].partition_id);
                    }
                }
            },
            None => {
                proof {
                    lemma_views_push(self.skipped_compactions@, row);
                }
                self.skipped_compactions.push(row);
                proof {
                    let after = self@.skipped_compactions;
                    assert forall|a: int, b: int| 0 <= a < b < after.len() implies (
                    #[trigger] after[a]).partition_id != (#[trigger] after[b]).partition_id by {
                        if b == before.len() {
                            assert(!skipped_of(row.partition_id)(before[a]));
                        }
                    }
                    assert forall|a: int| 0 <= a < after.len() implies any(
                        self@.partitions,
                        partition_with_id((#[trigger] after[a]).partition_id),
                    ) by {
                        if a < before.len() {
                            assert(after[a] == before[a]);
                        }
                    }
                }
            },
        }
        Ok(())
    }

    /// Runs the statement that deletes the skipped compaction of a partition.
    fn remove_skipped_compaction(&mut self, partition_id: PartitionId) -> (removed: Option<
        SkippedCompaction,
    >)
        requires
            old(self).wf(),
        ensures
            final(self).wf(),
            (final(self)@, match removed {
                Some(row) => Some(row@),
                None => None,
            }) == old(self)@.delete_skipped_compaction(partition_id),
    {
        let ghost before = self@.skipped_compactions;
        match place_of_skipped(&self.skipped_compactions, partition_id) {
            Some(i) => {
                proof {
                    lemma_views_remove(self.skipped_compactions@, i as int);
                }
                let row = self.skipped_compactions.remove(i);
                proof {
                    let after = self@.skipped_compactions;
                    assert forall|a: int, b: int| 0 <= a < b < after.len() implies (
                    #[trigger] after[a]).partition_id != (#[trigger] after[b]).partition_id by {
                        let pa = if a < i { a } else { a + 1 };
                        let pb = if b < i { b } else { b + 1 };
                        assert(after[a] == before[pa]);
                        assert(after[b] == before[pb]);
                    }
                    assert forall|a: int| 0 <= a < after.len() implies any(
                        self@.partitions,
                        partition_with_id((#[trigger] after[a]).partition_id),
                    ) by {
                        let pa = if a < i { a } else { a + 1 };
                        assert(after[a] == before[pa]);
                    }
                }
                Some(row)
            },
            None => None,
        }
    }
}

/// Lists the partitions of the given table.
pub fn list_by_table_id(repos: &MemCatalog, table_id: TableId) -> (r: Result<
    Vec<Partition>,
    CatalogError,
>)
    ensures
        result_views(r) == Ok::<Seq<PartitionView>, CatalogErrorView>(
            repos@.partitions_of(table_id),
        ),
{
    let rows = &repos.partitions;
    let ghost p = partition_in_table(table_id);
    let mut out: Vec<Partition> = Vec::new();
    let mut i: usize = 0;
    proof {
        lemma_filter_none(views(rows@), p);
        assert(views(out@) =~= Seq::<PartitionView>::empty());
    }
    while i < rows.len()
        invariant
            i <= rows.len(),
            p == partition_in_table(table_id),
            views(out@) == views(rows@).take(i as int).filter(p),
        decreases rows.len() - i,
    {
        proof {
            lemma_filter_next(views(rows@), p, i as int);
        }
        if rows[i].table_id == table_id {
            let row = rows[i].clone();
            out.push(row);
        }
        i += 1;
    }
    list_result(Ok(out))
}

/// Lists the ids of all partitions.
pub fn list_ids(repos: &MemCatalog) -> (r: Result<Vec<PartitionId>, CatalogError>)
    ensures
        result_seq(r) == Ok::<Seq<PartitionId>, CatalogErrorView>(repos@.partition_ids()),
{
    let rows = &repos.partitions;
    let mut out: Vec<PartitionId> = Vec::new();
    let mut i: usize = 0;
    while i < rows.len()
        invariant
            i <= rows.len(),
            out@.len() == i,
            forall|j: int| 0 <= j < i ==> out@[j] == (#[trigger] views(rows@)[j]).id,
        decreases rows.len() - i,
    {
        out.push(rows[i].id);
        i += 1;
    }
    proof {
        assert(out@ =~= repos@.partition_ids());
    }
    list_result(Ok(out))
}

/// Records that the compaction of a partition was skipped at `skipped_at`, and why. A
/// record that the partition has already is overwritten.
pub fn record_skipped_compaction(
    repos: &mut MemCatalog,
    partition_id: PartitionId,
    reason: &str,
    num_files: usize,
    limit_num_files: usize,
    limit_num_files_first_in_partition: usize,
    estimated_bytes: u64,
    limit_bytes: u64,
    skipped_at: Timestamp,
) -> (r: Result<(), CatalogError>)
    requires
        old(repos).wf(),
    ensures
        final(repos).wf(),
        (final(repos)@, result_plain(r)) == old(repos)@.record_skipped_compaction(
            SkippedCompactionView {
                partition_id,
                reason: reason@,
                skipped_at,
                estimated_bytes,
                limit_bytes,
                num_files,
                limit_num_files,
                limit_num_files_first_in_partition,
            },
        ),
{
    let row = SkippedCompaction {
        partition_id,
        reason: reason.to_string(),
        skipped_at,
        estimated_bytes,
        limit_bytes,
        num_files,
        limit_num_files,
        limit_num_files_first_in_partition,
    };
    let outcome = repos.upsert_skipped_compaction(row);
    record_skipped_compaction_result(outcome, partition_id)
}

/// Looks for the skipped compaction of the given partition.
pub fn get_in_skipped_compaction(repos: &MemCatalog, partition_id: PartitionId) -> (r: Result<
    Option<SkippedCompaction>,
    CatalogError,
>)
    ensures
        result_option_view(r) == Ok::<Option<SkippedCompactionView>, CatalogErrorView>(
            repos@.skipped_compaction_of(partition_id),
        ),
{
    match place_of_skipped(&repos.skipped_compactions, partition_id) {
        Some(i) => lookup_result(Ok(repos.skipped_compactions[i].clone())),
        None => lookup_result(Err(StoreFailure::RowNotFound)),
    }
}

/// Lists every skipped compaction.
pub fn list_skipped_compactions(repos: &MemCatalog) -> (r: Result<
    Vec<SkippedCompaction>,
    CatalogError,
>)
    ensures
        result_views(r) == Ok::<Seq<SkippedCompactionView>, CatalogErrorView>(
            repos@.skipped_compactions,
        ),
{
    let rows = &repos.skipped_compactions;
    let mut out: Vec<SkippedCompaction> = Vec::new();
    let mut i: usize = 0;
    proof {
        assert(views(out@) =~= views(rows@).take(0));
    }
    while i < rows.len()
        invariant
            i <= rows.len(),
            views(out@) == views(rows@).take(i as int),
        decreases rows.len() - i,
    {
        let row = rows[i].clone();
        proof {
            assert(views(rows@).take(i + 1) =~= views(rows@).take(i as int).push(row@));
        }
        out.push(row);
        i += 1;
    }
    proof {
        assert(views(rows@).take(rows.len() as int) =~= views(rows@));
    }
    list_skipped_compactions_result(Ok(out))
}

/// Deletes the skipped compaction of the given partition and hands it out, if there is
/// one.
pub fn delete_skipped_compactions(repos: &mut MemCatalog, partition_id: PartitionId) -> (r: Result<
    Option<SkippedCompaction>,
    CatalogError,
>)
    requires
        old(repos).wf(),
    ensures
        final(repos).wf(),
        (final(repos)@, result_option_view(r)) == (
            old(repos)@.delete_skipped_compaction(partition_id).0,
            Ok::<Option<SkippedCompactionView>, CatalogErrorView>(
                old(repos)@.delete_skipped_compaction(partition_id).1,
            ),
        ),
{
    let removed = repos.remove_skipped_compaction(partition_id);
    delete_skipped_compactions_result(Ok(removed))
}

/// Lists the `n` partitions that were created last, the last first.
pub fn most_recent_n(repos: &MemCatalog, n: usize) -> (r: Result<Vec<Partition>, CatalogError>)
    ensures
        result_views(r) == Ok::<Seq<PartitionView>, CatalogErrorView>(
            repos@.most_recent_partitions(n as nat),
        ),
{
    let rows = &repos.partitions;
    let count = if n <= rows.len() {
        n
    } else {
        rows.len()
    };
    let mut out: Vec<Partition> = Vec::new();
    let mut j: usize = 0;
    while j < count
        invariant
            j <= count,
            count <= rows.len(),
            out@.len() == j,
            forall|k: int|
                0 <= k < j ==> (#[trigger] out@[k])@ == views(rows@)[rows.len() - 1 - k],
        decreases count - j,
    {
        out.push(rows[rows.len() - 1 - j].clone());
        j += 1;
    }
    proof {
        assert(views(out@) =~= repos@.most_recent_partitions(n as nat));
    }
    list_result(Ok(out))
}

/// Lists the ids of the partitions in which a file arrived after `minimum_time` and,
/// where a maximum is given, before `maximum_time`.
pub fn partitions_new_file_between(
    repos: &MemCatalog,
    minimum_time: Timestamp,
    maximum_time: Option<Timestamp>,
) -> (r: Result<Vec<PartitionId>, CatalogError>)
    ensures
        result_seq(r) == Ok::<Seq<PartitionId>, CatalogErrorView>(
            repos@.partitions_with_new_file(minimum_time, maximum_time),
        ),
{
    let rows = &repos.partitions;
    let ghost p = new_file_between(minimum_time, maximum_time);
    let ghost id_of = |p: PartitionView| p.id;
    let mut out: Vec<PartitionId> = Vec::new();
    let mut i: usize = 0;
    proof {
        lemma_filter_none(views(rows@), p);
        assert(out@ =~= views(rows@).take(0).filter(p).map_values(id_of));
    }
    while i < rows.len()
        invariant
            i <= rows.len(),
            p == new_file_between(minimum_time, maximum_time),
            id_of == |p: PartitionView| p.id,
            out@ == views(rows@).take(i as int).filter(p).map_values(id_of),
        decreases rows.len() - i,
    {
        proof {
            lemma_filter_next(views(rows@), p, i as int);
        }
        let arrived = match rows[i].new_file_at {
            Some(at) => at.0 > minimum_time.0 && match maximum_time {
                Some(max) => at.0 < max.0,
                None => true,
            },
            None => false,
        };
        if arrived {
            proof {
                let kept = views(rows@).take(i as int).filter(p);
                assert(kept.push(views(rows@)[i as int]).map_values(id_of) =~= kept.map_values(
                    id_of,
                ).push(rows[i as int].id));
            }
            out.push(rows[i].id);
        }
        i += 1;
    }
    list_result(Ok(out))
}

} // verus!
