//! The namespace repository: creation, lookup, soft delete and the updates of limits and
//! retention.

use crate::error::{
    result_option_view, result_plain, result_view, result_views, CatalogError, CatalogErrorView,
};
use crate::mem::MemCatalog;
use crate::model::{
    NamespaceId, SoftDeletedRows, Timestamp, DEFAULT_MAX_COLUMNS_PER_TABLE, DEFAULT_MAX_TABLES,
};
use crate::outcome::{list_result, lookup_result, plain_error, plain_failure, row_outcome};
use crate::rows::{Namespace, NamespacePartitionTemplateOverride, NamespaceView};
use crate::seqs::{
    any, find, lemma_filter_next, lemma_filter_none, lemma_position_is, lemma_views_push,
    lemma_views_update, position, views,
};
use crate::state::{
    lemma_namespace_added, lemma_namespaces_changed, namespace_named, namespace_with_id,
    CatalogState,
};
use crate::store_error::StoreFailure;
use vstd::prelude::*;

verus! {

/// Namespaces that a query with the given treatment of soft-deleted rows admits.
pub open spec fn namespace_admitted(deleted: SoftDeletedRows) -> spec_fn(NamespaceView) -> bool {
    |n: NamespaceView| deleted.spec_admits(n.deleted_at)
}

/// The namespace of the given id, if the query admits it.
pub open spec fn admitted_with_id(id: NamespaceId, deleted: SoftDeletedRows) -> spec_fn(
    NamespaceView,
) -> bool {
    |n: NamespaceView| n.id == id && deleted.spec_admits(n.deleted_at)
}

/// The namespace of the given name, if the query admits it.
pub open spec fn admitted_named(name: Seq<char>, deleted: SoftDeletedRows) -> spec_fn(
    NamespaceView,
) -> bool {
    |n: NamespaceView| n.name == name && deleted.spec_admits(n.deleted_at)
}

/// What a change of one namespace leaves of it.
pub enum NamespaceChange {
    /// The namespace is marked as deleted at the given time.
    SoftDelete(Timestamp),
    /// The namespace may hold that many tables.
    TableLimit(i32),
    /// Each table of the namespace may hold that many columns.
    ColumnLimit(i32),
    /// Files of the namespace are retained for that long, or for ever.
    Retention(Option<i64>),
}

impl NamespaceChange {
    /// The namespace after the change.
    pub open spec fn apply(self, n: NamespaceView) -> NamespaceView {
        match self {
            NamespaceChange::SoftDelete(at) => NamespaceView { deleted_at: Some(at), ..n },
            NamespaceChange::TableLimit(max) => NamespaceView { max_tables: max, ..n },
            NamespaceChange::ColumnLimit(max) => NamespaceView { max_columns_per_table: max, ..n },
            NamespaceChange::Retention(period) => NamespaceView {
                retention_period_ns: period,
                ..n
            },
        }
    }
}

impl CatalogState {
    /// The statement that inserts a namespace: refused where the name is taken, soft-deleted
    /// namespaces included; otherwise the namespace gets the next id and the default limits.
    pub open spec fn insert_namespace(
        self,
        name: Seq<char>,
        partition_template: Option<Seq<char>>,
        retention_period_ns: Option<i64>,
    ) -> (CatalogState, Result<NamespaceView, StoreFailure>) {
        if any(self.namespaces, namespace_named(name)) {
            (self, Err(StoreFailure::UniqueViolation))
        } else if self.next_namespace_id == i64::MAX {
            (self, Err(StoreFailure::Other))
        } else {
            let row = NamespaceView {
                id: NamespaceId(self.next_namespace_id),
                name,
                retention_period_ns,
                max_tables: DEFAULT_MAX_TABLES,
                max_columns_per_table: DEFAULT_MAX_COLUMNS_PER_TABLE,
                deleted_at: None,
                partition_template,
            };
            (
                CatalogState {
                    namespaces: self.namespaces.push(row),
                    next_namespace_id: (self.next_namespace_id + 1) as i64,
                    ..self
                },
                Ok(row),
            )
        }
    }

    /// The statement that changes the namespace of the given name and yields it as it is
    /// after the change; it yields no row where no namespace has that name.
    pub open spec fn update_namespace(self, name: Seq<char>, change: NamespaceChange) -> (
        CatalogState,
        Result<NamespaceView, StoreFailure>,
    ) {
        match position(self.namespaces, namespace_named(name)) {
            Some(i) => {
                let row = change.apply(self.namespaces[i]);
                (CatalogState { namespaces: self.namespaces.update(i, row), ..self }, Ok(row))
            },
            None => (self, Err(StoreFailure::RowNotFound)),
        }
    }

    /// Creating a namespace.
    pub open spec fn create_namespace(
        self,
        name: Seq<char>,
        partition_template: Option<Seq<char>>,
        retention_period_ns: Option<i64>,
    ) -> (CatalogState, Result<NamespaceView, CatalogErrorView>) {
        let (after, outcome) = self.insert_namespace(name, partition_template, retention_period_ns);
        (after, created(outcome, name))
    }

    /// Changing a limit or the retention of a namespace.
    pub open spec fn change_namespace(self, name: Seq<char>, change: NamespaceChange) -> (
        CatalogState,
        Result<NamespaceView, CatalogErrorView>,
    ) {
        let (after, outcome) = self.update_namespace(name, change);
        (after, updated(outcome, name))
    }

    /// Marking a namespace as deleted.
    pub open spec fn soft_delete_namespace(self, name: Seq<char>, at: Timestamp) -> (
        CatalogState,
        Result<(), CatalogErrorView>,
    ) {
        let (after, outcome) = self.update_namespace(name, NamespaceChange::SoftDelete(at));
        (after, soft_deleted(rows_touched(outcome), name))
    }
}

/// How many rows an update touched that yields the row it changed.
pub open spec fn rows_touched<T>(outcome: Result<T, StoreFailure>) -> Result<u64, StoreFailure> {
    match outcome {
        Ok(_) => Ok(1),
        Err(StoreFailure::RowNotFound) => Ok(0),
        Err(f) => Err(f),
    }
}

/// What `create` reports for the outcome of its statement: a taken name is reported as
/// such, a broken foreign key as such, any other failure as a failure of the store.
pub open spec fn created(outcome: Result<NamespaceView, StoreFailure>, name: Seq<char>) -> Result<
    NamespaceView,
    CatalogErrorView,
> {
    match outcome {
        Ok(row) => Ok(row),
        Err(StoreFailure::UniqueViolation) => Err(CatalogErrorView::NameExists { name }),
        Err(f) => Err(plain_failure(f)),
    }
}

/// What an update of a namespace reports for the outcome of its statement: where the
/// statement yields no row, no namespace has the name.
pub open spec fn updated(outcome: Result<NamespaceView, StoreFailure>, name: Seq<char>) -> Result<
    NamespaceView,
    CatalogErrorView,
> {
    match outcome {
        Ok(row) => Ok(row),
        Err(StoreFailure::RowNotFound) => Err(CatalogErrorView::NamespaceNotFoundByName { name }),
        Err(_) => Err(CatalogErrorView::SqlxError),
    }
}

/// What `soft_delete` reports for the number of rows that its statement touched: where it
/// touched none, no namespace has the name.
pub open spec fn soft_deleted(outcome: Result<u64, StoreFailure>, name: Seq<char>) -> Result<
    (),
    CatalogErrorView,
> {
    match outcome {
        Ok(n) => if n == 0 {
            Err(CatalogErrorView::NamespaceNotFoundByName { name })
        } else {
            Ok(())
        },
        Err(_) => Err(CatalogErrorView::CouldNotDeleteNamespace),
    }
}

/// Reports the outcome of the statement of `create`.
pub fn create_result(outcome: Result<Namespace, StoreFailure>, name: &str) -> (r: Result<
    Namespace,
    CatalogError,
>)
    ensures
        result_view(r) == created(row_outcome(outcome), name@),
{
    match outcome {
        Ok(row) => Ok(row),
        Err(StoreFailure::UniqueViolation) => Err(
            CatalogError::NameExists { name: name.to_string() },
        ),
        Err(f) => Err(plain_error(f)),
    }
}

/// Reports the outcome of the statement of an update of a namespace.
pub fn update_result(outcome: Result<Namespace, StoreFailure>, name: &str) -> (r: Result<
    Namespace,
    CatalogError,
>)
    ensures
        result_view(r) == updated(row_outcome(outcome), name@),
{
    match outcome {
        Ok(row) => Ok(row),
        Err(StoreFailure::RowNotFound) => Err(
            CatalogError::NamespaceNotFoundByName { name: name.to_string() },
        ),
        Err(_) => Err(CatalogError::SqlxError),
    }
}

/// Reports the outcome of the statement of `soft_delete`.
pub fn soft_delete_result(outcome: Result<u64, StoreFailure>, name: &str) -> (r: Result<
    (),
    CatalogError,
>)
    ensures
        result_plain(r) == soft_deleted(outcome, name@),
{
    match outcome {
        Ok(n) => {
            if n == 0 {
                Err(CatalogError::NamespaceNotFoundByName { name: name.to_string() })
            } else {
                Ok(())
            }
        },
        Err(_) => Err(CatalogError::CouldNotDeleteNamespace),
    }
}

/// Where the namespace of the given name stands.
pub(crate) fn place_by_name(rows: &Vec<Namespace>, name: &str) -> (at: Option<usize>)
    ensures
        match at {
            Some(i) => position(views(rows@), namespace_named(name@)) == Some(i as int),
            None => position(views(rows@), namespace_named(name@)) is None,
        },
        any(views(rows@), namespace_named(name@)) == at is Some,
{
    let wanted = name.to_string();
    let ghost p = namespace_named(name@);
    let mut i: usize = 0;
    while i < rows.len()
        invariant
            i <= rows.len(),
            wanted@ == name@,
            p == namespace_named(name@),
            forall|j: int| 0 <= j < i ==> !p(#[trigger] views(rows@)[j]),
        decreases rows.len() - i,
    {
        if rows[i].name == wanted {
            proof {
                lemma_position_is(views(rows@), p, i as int);
            }
            return Some(i);
        }
        i += 1;
    }
    None
}

/// Where the namespace of the given id stands.
pub(crate) fn place_by_id(rows: &Vec<Namespace>, id: NamespaceId) -> (at: Option<usize>)
    ensures
        match at {
            Some(i) => position(views(rows@), namespace_with_id(id)) == Some(i as int),
            None => position(views(rows@), namespace_with_id(id)) is None,
        },
        any(views(rows@), namespace_with_id(id)) == at is Some,
{
    let ghost p = namespace_with_id(id);
    let mut i: usize = 0;
    while i < rows.len()
        invariant
            i <= rows.len(),
            p == namespace_with_id(id),
            forall|j: int| 0 <= j < i ==> !p(#[trigger] views(rows@)[j]),
        decreases rows.len() - i,
    {
        if rows[i].id == id {
            proof {
                lemma_position_is(views(rows@), p, i as int);
            }
            return Some(i);
        }
        i += 1;
    }
    None
}

impl MemCatalog {
    /// Runs the statement that inserts a namespace.
    fn insert_namespace(
        &mut self,
        name: &str,
        partition_template: NamespacePartitionTemplateOverride,
        retention_period_ns: Option<i64>,
    ) -> (outcome: Result<Namespace, StoreFailure>)
        requires
            old(self).wf(),
        ensures
            final(self).wf(),
            (final(self)@, row_outcome(outcome)) == old(self)@.insert_namespace(
                name@,
                partition_template@,
                retention_period_ns,
            ),
    {
        if place_by_name(&self.namespaces, name).is_some() {
            return Err(StoreFailure::UniqueViolation);
        }
        if self.next_namespace_id == i64::MAX {
            return Err(StoreFailure::Other);
        }
        let row = Namespace {
            id: NamespaceId(self.next_namespace_id),
            name: name.to_string(),
            retention_period_ns,
            max_tables: DEFAULT_MAX_TABLES,
            max_columns_per_table: DEFAULT_MAX_COLUMNS_PER_TABLE,
            deleted_at: None,
            partition_template,
        };
        let stored = row.clone();
        proof {
            lemma_views_push(self.namespaces@, stored);
            lemma_namespace_added(
                self@,
                old(self)@.insert_namespace(name@, partition_template@, retention_period_ns).0,
                row@,
            );
        }
        self.namespaces.push(stored);
        self.next_namespace_id = self.next_namespace_id + 1;
        Ok(row)
    }

    /// Runs the statement that changes the namespace of the given name.
    fn update_namespace(&mut self, name: &str, change: NamespaceChange) -> (outcome: Result<
        Namespace,
        StoreFailure,
    >)
        requires
            old(self).wf(),
        ensures
            final(self).wf(),
            (final(self)@, row_outcome(outcome)) == old(self)@.update_namespace(name@, change),
    {
        match place_by_name(&self.namespaces, name) {
            Some(i) => {
                let mut row = self.namespaces[i].clone();
                match change {
                    NamespaceChange::SoftDelete(at) => {
                        row.deleted_at = Some(at);
                    },
                    NamespaceChange::TableLimit(max) => {
                        row.max_tables = max;
                    },
                    NamespaceChange::ColumnLimit(max) => {
                        row.max_columns_per_table = max;
                    },
                    NamespaceChange::Retention(period) => {
                        row.retention_period_ns = period;
                    },
                }
                let stored = row.clone();
                proof {
                    lemma_views_update(self.namespaces@, i as int, stored);
                    lemma_namespaces_changed(
                        self@,
                        old(self)@.update_namespace(name@, change).0,
                    );
                }
                self.namespaces[i] = stored;
                Ok(row)
            },
            None => Err(StoreFailure::RowNotFound),
        }
    }
}

/// Creates a namespace with the default limits.
pub fn create(
    repos: &mut MemCatalog,
    name: &str,
    partition_template: Option<NamespacePartitionTemplateOverride>,
    retention_period_ns: Option<i64>,
) -> (r: Result<Namespace, CatalogError>)
    requires
        old(repos).wf(),
    ensures
        final(repos).wf(),
        (final(repos)@, result_view(r)) == old(repos)@.create_namespace(
            name@,
            match partition_template {
                Some(t) => t@,
                None => None,
            },
            retention_period_ns,
        ),
{
    let partition_template = match partition_template {
        Some(t) => t,
        None => NamespacePartitionTemplateOverride::default(),
    };
    let outcome = repos.insert_namespace(name, partition_template, retention_period_ns);
    create_result(outcome, name)
}

/// Sets how many tables the namespace of the given name may hold.
pub fn update_table_limit(repos: &mut MemCatalog, name: &str, new_max: i32) -> (r: Result<
    Namespace,
    CatalogError,
>)
    requires
        old(repos).wf(),
    ensures
        final(repos).wf(),
        (final(repos)@, result_view(r)) == old(repos)@.change_namespace(
            name@,
            NamespaceChange::TableLimit(new_max),
        ),
{
    let outcome = repos.update_namespace(name, NamespaceChange::TableLimit(new_max));
    update_result(outcome, name)
}

/// Sets how many columns each table of the namespace of the given name may hold.
pub fn update_column_limit(repos: &mut MemCatalog, name: &str, new_max: i32) -> (r: Result<
    Namespace,
    CatalogError,
>)
    requires
        old(repos).wf(),
    ensures
        final(repos).wf(),
        (final(repos)@, result_view(r)) == old(repos)@.change_namespace(
            name@,
            NamespaceChange::ColumnLimit(new_max),
        ),
{
    let outcome = repos.update_namespace(name, NamespaceChange::ColumnLimit(new_max));
    update_result(outcome, name)
}

/// Sets for how long the files of the namespace of the given name are retained.
pub fn update_retention_period(
    repos: &mut MemCatalog,
    name: &str,
    retention_period_ns: Option<i64>,
) -> (r: Result<Namespace, CatalogError>)
    requires
        old(repos).wf(),
    ensures
        final(repos).wf(),
        (final(repos)@, result_view(r)) == old(repos)@.change_namespace(
            name@,
            NamespaceChange::Retention(retention_period_ns),
        ),
{
    let outcome = repos.update_namespace(name, NamespaceChange::Retention(retention_period_ns));
    update_result(outcome, name)
}

/// Marks the namespace of the given name as deleted at `now`. The row stays.
pub fn soft_delete(repos: &mut MemCatalog, name: &str, now: Timestamp) -> (r: Result<
    (),
    CatalogError,
>)
    requires
        old(repos).wf(),
    ensures
        final(repos).wf(),
        (final(repos)@, result_plain(r)) == old(repos)@.soft_delete_namespace(name@, now),
{
    let outcome = repos.update_namespace(name, NamespaceChange::SoftDelete(now));
    let touched = match outcome {
        Ok(_) => Ok(1),
        Err(StoreFailure::RowNotFound) => Ok(0),
        Err(f) => Err(f),
    };
    soft_delete_result(touched, name)
}


impl CatalogState {
    /// The namespaces that a query with the given treatment of soft-deleted rows admits,
    /// in the order of their ids.
    pub open spec fn list_namespaces(self, deleted: SoftDeletedRows) -> Seq<NamespaceView> {
        self.namespaces.filter(namespace_admitted(deleted))
    }

    /// The namespace of the given id, if the query admits it.
    pub open spec fn namespace_by_id(self, id: NamespaceId, deleted: SoftDeletedRows) -> Option<
        NamespaceView,
    > {
        find(self.namespaces, admitted_with_id(id, deleted))
    }

    /// The namespace of the given name, if the query admits it.
    pub open spec fn namespace_by_name(self, name: Seq<char>, deleted: SoftDeletedRows) -> Option<
        NamespaceView,
    > {
        find(self.namespaces, admitted_named(name, deleted))
    }
}

/// Lists the namespaces that `deleted` admits.
pub fn list(repos: &MemCatalog, deleted: SoftDeletedRows) -> (r: Result<
    Vec<Namespace>,
    CatalogError,
>)
    ensures
        result_views(r) == Ok::<Seq<NamespaceView>, CatalogErrorView>(
            repos@.list_namespaces(deleted),
        ),
{
    let rows = &repos.namespaces;
    let ghost p = namespace_admitted(deleted);
    let mut out: Vec<Namespace> = Vec::new();
    let mut i: usize = 0;
    proof {
        lemma_filter_none(views(rows@), p);
        assert(views(out@) =~= Seq::<NamespaceView>::empty());
    }
    while i < rows.len()
        invariant
            i <= rows.len(),
            p == namespace_admitted(deleted),
            views(out@) == views(rows@).take(i as int).filter(p),
        decreases rows.len() - i,
    {
        proof {
            lemma_filter_next(views(rows@), p, i as int);
        }
        if deleted.admits(rows[i].deleted_at) {
            let row = rows[i].clone();
            out.push(row);
        }
        i += 1;
    }
    list_result(Ok(out))
}

/// Looks for the namespace of the given id among those that `deleted` admits.
pub fn get_by_id(repos: &MemCatalog, id: NamespaceId, deleted: SoftDeletedRows) -> (r: Result<
    Option<Namespace>,
    CatalogError,
>)
    ensures
        result_option_view(r) == Ok::<Option<NamespaceView>, CatalogErrorView>(
            repos@.namespace_by_id(id, deleted),
        ),
{
    let rows = &repos.namespaces;
    let ghost p = admitted_with_id(id, deleted);
    let mut i: usize = 0;
    while i < rows.len()
        invariant
            i <= rows.len(),
            p == admitted_with_id(id, deleted),
            views(rows@) == repos@.namespaces,
            forall|j: int| 0 <= j < i ==> !p(#[trigger] views(rows@)[j]),
        decreases rows.len() - i,
    {
        if rows[i].id == id && deleted.admits(rows[i].deleted_at) {
            let row = rows[i].clone();
            proof {
                lemma_position_is(views(rows@), p, i as int);
            }
            return lookup_result(Ok(row));
        }
        i += 1;
    }
    lookup_result(Err(StoreFailure::RowNotFound))
}

/// Looks for the namespace of the given name among those that `deleted` admits.
pub fn get_by_name(repos: &MemCatalog, name: &str, deleted: SoftDeletedRows) -> (r: Result<
    Option<Namespace>,
    CatalogError,
>)
    ensures
        result_option_view(r) == Ok::<Option<NamespaceView>, CatalogErrorView>(
            repos@.namespace_by_name(name@, deleted),
        ),
{
    let rows = &repos.namespaces;
    let wanted = name.to_string();
    let ghost p = admitted_named(name@, deleted);
    let mut i: usize = 0;
    while i < rows.len()
        invariant
            i <= rows.len(),
            wanted@ == name@,
            p == admitted_named(name@, deleted),
            views(rows@) == repos@.namespaces,
            forall|j: int| 0 <= j < i ==> !p(#[trigger] views(rows@)[j]),
        decreases rows.len() - i,
    {
        if rows[i].name == wanted && deleted.admits(rows[i].deleted_at) {
            let row = rows[i].clone();
            proof {
                lemma_position_is(views(rows@), p, i as int);
            }
            return lookup_result(Ok(row));
        }
        i += 1;
    }
    lookup_result(Err(StoreFailure::RowNotFound))
}

} // verus!
