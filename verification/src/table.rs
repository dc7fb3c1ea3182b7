//! The table repository: creation under the namespace's limit, and lookup.

use crate::error::{result_option_view, result_view, result_views, CatalogError, CatalogErrorView};
use crate::mem::MemCatalog;
use crate::model::{NamespaceId, TableId};
use crate::namespace::place_by_id as namespace_place;
use crate::outcome::{list_result, lookup_result, plain_error, plain_failure, row_outcome};
use crate::rows::{Table, TableView};
use crate::seqs::{
    any, find, lemma_filter_next, lemma_filter_none, lemma_position_is, lemma_views_push, position,
    views,
};
use crate::state::{
    lemma_table_added, namespace_with_id, table_in_namespace, table_named, table_with_id,
    CatalogState,
};
use crate::store_error::StoreFailure;
use vstd::prelude::*;

verus! {

impl CatalogState {
    /// How many tables the namespace holds.
    pub open spec fn table_count(self, namespace_id: NamespaceId) -> nat {
        self.tables.filter(table_in_namespace(namespace_id)).len()
    }

    /// The statement that inserts a table. Its rows come from a query that yields the
    /// namespace only while the namespace holds fewer tables than it may: where the
    /// namespace is missing or full, nothing is inserted and the statement yields no row.
    /// Otherwise the insert is refused where the namespace has a table of that name, and
    /// else the table gets the next id.
    pub open spec fn insert_table(self, name: Seq<char>, namespace_id: NamespaceId) -> (
        CatalogState,
        Result<TableView, StoreFailure>,
    ) {
        match find(self.namespaces, namespace_with_id(namespace_id)) {
            None => (self, Err(StoreFailure::RowNotFound)),
            Some(namespace) => {
                if self.table_count(namespace_id) >= namespace.max_tables {
                    (self, Err(StoreFailure::RowNotFound))
                } else if any(self.tables, table_named(namespace_id, name)) {
                    (self, Err(StoreFailure::UniqueViolation))
                } else if self.next_table_id == i64::MAX {
                    (self, Err(StoreFailure::Other))
                } else {
                    let row = TableView { id: TableId(self.next_table_id), namespace_id, name };
                    (
                        CatalogState {
                            tables: self.tables.push(row),
                            next_table_id: (self.next_table_id + 1) as i64,
                            ..self
                        },
                        Ok(row),
                    )
                }
            },
        }
    }

    /// Creating a table.
    pub open spec fn create_table(self, name: Seq<char>, namespace_id: NamespaceId) -> (
        CatalogState,
        Result<TableView, CatalogErrorView>,
    ) {
        let (after, outcome) = self.insert_table(name, namespace_id);
        (after, created(outcome, name, namespace_id))
    }

    /// The table of the given id.
    pub open spec fn table_by_id(self, id: TableId) -> Option<TableView> {
        find(self.tables, table_with_id(id))
    }

    /// The table of the given name in the given namespace.
    pub open spec fn table_by_name(self, namespace_id: NamespaceId, name: Seq<char>) -> Option<
        TableView,
    > {
        find(self.tables, table_named(namespace_id, name))
    }

    /// The tables of the given namespace, in the order of their ids.
    pub open spec fn tables_of(self, namespace_id: NamespaceId) -> Seq<TableView> {
        self.tables.filter(table_in_namespace(namespace_id))
    }
}

/// What `create` reports for the outcome of its statement: where the statement yields no
/// row the namespace's limit is reached; a taken name is reported as such.
pub open spec fn created(
    outcome: Result<TableView, StoreFailure>,
    name: Seq<char>,
    namespace_id: NamespaceId,
) -> Result<TableView, CatalogErrorView> {
    match outcome {
        Ok(row) => Ok(row),
        Err(StoreFailure::RowNotFound) => Err(
            CatalogErrorView::TableCreateLimitError { table_name: name, namespace_id },
        ),
        Err(StoreFailure::UniqueViolation) => Err(
            CatalogErrorView::TableNameExists { name, namespace_id },
        ),
        Err(f) => Err(plain_failure(f)),
    }
}

/// Reports the outcome of the statement of `create`.
pub fn create_result(outcome: Result<Table, StoreFailure>, name: &str, namespace_id: NamespaceId)
    -> (r: Result<Table, CatalogError>)
    ensures
        result_view(r) == created(row_outcome(outcome), name@, namespace_id),
{
    match outcome {
        Ok(row) => Ok(row),
        Err(StoreFailure::RowNotFound) => Err(
            CatalogError::TableCreateLimitError { table_name: name.to_string(), namespace_id },
        ),
        Err(StoreFailure::UniqueViolation) => Err(
            CatalogError::TableNameExists { name: name.to_string(), namespace_id },
        ),
        Err(f) => Err(plain_error(f)),
    }
}

/// Where the table of the given id stands.
pub(crate) fn place_by_id(rows: &Vec<Table>, id: TableId) -> (at: Option<usize>)
    ensures
        match at {
            Some(i) => position(views(rows@), table_with_id(id)) == Some(i as int),
            None => position(views(rows@), table_with_id(id)) is None,
        },
        any(views(rows@), table_with_id(id)) == at is Some,
{
    let ghost p = table_with_id(id);
    let mut i: usize = 0;
    while i < rows.len()
        invariant
            i <= rows.len(),
            p == table_with_id(id),
            forall|j: int| 0 <= j < i ==> !p(#[trigger] views(rows@)[j]),
        decreases rows.len() - i,
    {
        if rows[i].id == id {
            proof {
                lemma_position_is(views(rows@), p, i as int);
            }
            return Some(i);
        }
        i += 1;
    }
    None
}

/// Where the table of the given name in the given namespace stands.
fn place_by_name(rows: &Vec<Table>, namespace_id: NamespaceId, name: &str) -> (at: Option<usize>)
    ensures
        match at {
            Some(i) => position(views(rows@), table_named(namespace_id, name@)) == Some(i as int),
            None => position(views(rows@), table_named(namespace_id, name@)) is None,
        },
        any(views(rows@), table_named(namespace_id, name@)) == at is Some,
{
    let wanted = name.to_string();
    let ghost p = table_named(namespace_id, name@);
    let mut i: usize = 0;
    while i < rows.len()
        invariant
            i <= rows.len(),
            wanted@ == name@,
            p == table_named(namespace_id, name@),
            forall|j: int| 0 <= j < i ==> !p(#[trigger] views(rows@)[j]),
        decreases rows.len() - i,
    {
        if rows[i].namespace_id == namespace_id && rows[i].name == wanted {
            proof {
                lemma_position_is(views(rows@), p, i as int);
            }
            return Some(i);
        }
        i += 1;
    }
    None
}

/// How many tables the namespace holds.
fn count_in_namespace(rows: &Vec<Table>, namespace_id: NamespaceId) -> (n: usize)
    ensures
        n == views(rows@).filter(table_in_namespace(namespace_id)).len(),
{
    let ghost p = table_in_namespace(namespace_id);
    let mut n: usize = 0;
    let mut i: usize = 0;
    proof {
        lemma_filter_none(views(rows@), p);
    }
    while i < rows.len()
        invariant
            i <= rows.len(),
            n <= i,
            p == table_in_namespace(namespace_id),
            n == views(rows@).take(i as int).filter(p).len(),
        decreases rows.len() - i,
    {
        proof {
            lemma_filter_next(views(rows@), p, i as int);
        }
        if rows[i].namespace_id == namespace_id {
            n += 1;
        }
        i += 1;
    }
    n
}

impl MemCatalog {
    /// Runs the statement that inserts a table.
    fn insert_table(&mut self, name: &str, namespace_id: NamespaceId) -> (outcome: Result<
        Table,
        StoreFailure,
    >)
        requires
            old(self).wf(),
        ensures
            final(self).wf(),
            (final(self)@, row_outcome(outcome)) == old(self)@.insert_table(name@, namespace_id),
    {
        let at = match namespace_place(&self.namespaces, namespace_id) {
            Some(at) => at,
            None => {
                return Err(StoreFailure::RowNotFound);
            },
        };
        let max_tables = self.namespaces[at].max_tables;
        let count = count_in_namespace(&self.tables, namespace_id);
        if max_tables <= 0 || count >= max_tables as usize {
            return Err(StoreFailure::RowNotFound);
        }
        if place_by_name(&self.tables, namespace_id, name).is_some() {
            return Err(StoreFailure::UniqueViolation);
        }
        if self.next_table_id == i64::MAX {
            return Err(StoreFailure::Other);
        }
        let row = Table { id: TableId(self.next_table_id), namespace_id, name: name.to_string() };
        let stored = row.clone();
        proof {
            lemma_views_push(self.tables@, stored);
            lemma_table_added(self@, old(self)@.insert_table(name@, namespace_id).0, row@);
        }
        self.tables.push(stored);
        self.next_table_id = self.next_table_id + 1;
        Ok(row)
    }
}

/// Creates a table in a namespace, unless the namespace holds as many tables as it may.
pub fn create(repos: &mut MemCatalog, name: &str, namespace_id: NamespaceId) -> (r: Result<
    Table,
    CatalogError,
>)
    requires
        old(repos).wf(),
    ensures
        final(repos).wf(),
        (final(repos)@, result_view(r)) == old(repos)@.create_table(name@, namespace_id),
{
    let outcome = repos.insert_table(name, namespace_id);
    create_result(outcome, name, namespace_id)
}

/// Looks for the table of the given id.
pub fn get_by_id(repos: &MemCatalog, table_id: TableId) -> (r: Result<Option<Table>, CatalogError>)
    ensures
        result_option_view(r) == Ok::<Option<TableView>, CatalogErrorView>(
            repos@.table_by_id(table_id),
        ),
{
    match place_by_id(&repos.tables, table_id) {
        Some(i) => lookup_result(Ok(repos.tables[i].clone())),
        None => lookup_result(Err(StoreFailure::RowNotFound)),
    }
}

/// Looks for the table of the given name in the given namespace.
pub fn get_by_namespace_and_name(repos: &MemCatalog, namespace_id: NamespaceId, name: &str) -> (r:
    Result<Option<Table>, CatalogError>)
    ensures
        result_option_view(r) == Ok::<Option<TableView>, CatalogErrorView>(
            repos@.table_by_name(namespace_id, name@),
        ),
{
    match place_by_name(&repos.tables, namespace_id, name) {
        Some(i) => lookup_result(Ok(repos.tables[i].clone())),
        None => lookup_result(Err(StoreFailure::RowNotFound)),
    }
}

/// Lists the tables of the given namespace.
pub fn list_by_namespace_id(repos: &MemCatalog, namespace_id: NamespaceId) -> (r: Result<
    Vec<Table>,
    CatalogError,
>)
    ensures
        result_views(r) == Ok::<Seq<TableView>, CatalogErrorView>(repos@.tables_of(namespace_id)),
{
    let rows = &repos.tables;
    let ghost p = table_in_namespace(namespace_id);
    let mut out: Vec<Table> = Vec::new();
    let mut i: usize = 0;
    proof {
        lemma_filter_none(views(rows@), p);
        assert(views(out@) =~= Seq::<TableView>::empty());
    }
    while i < rows.len()
        invariant
            i <= rows.len(),
            p == table_in_namespace(namespace_id),
            views(out@) == views(rows@).take(i as int).filter(p),
        decreases rows.len() - i,
    {
        proof {
            lemma_filter_next(views(rows@), p, i as int);
        }
        if rows[i].namespace_id == namespace_id {
            let row = rows[i].clone();
            out.push(row);
        }
        i += 1;
    }
    list_result(Ok(out))
}

/// Lists every table.
pub fn list(repos: &MemCatalog) -> (r: Result<Vec<Table>, CatalogError>)
    ensures
        result_views(r) == Ok::<Seq<TableView>, CatalogErrorView>(repos@.tables),
{
    let rows = &repos.tables;
    let mut out: Vec<Table> = Vec::new();
    let mut i: usize = 0;
    proof {
        assert(views(out@) =~= views(rows@).take(0));
    }
    while i < rows.len()
        invariant
            i <= rows.len(),
            views(out@) == views(rows@).take(i as int),
        decreases rows.len() - i,
    {
        let row = rows[i].clone();
        proof {
            assert(views(rows@).take(i + 1) =~= views(rows@).take(i as int).push(row@));
        }
        out.push(row);
        i += 1;
    }
    proof {
        assert(views(rows@).take(rows.len() as int) =~= views(rows@));
    }
    list_result(Ok(out))
}

} // verus!
