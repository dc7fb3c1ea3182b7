//! The column repository: creation of one column under the table's limit, creation of a
//! batch of columns without that check, and lookup.

use crate::batch::{requested_type, ColumnBatch, ColumnRequestView};
use crate::error::{result_view, result_views, CatalogError, CatalogErrorView};
use crate::mem::MemCatalog;
use crate::model::{ColumnId, ColumnType, NamespaceId, TableId};
use crate::namespace::place_by_id as namespace_place;
use crate::outcome::{list_result, plain_error, plain_failure, row_outcome, rows_outcome};
use crate::rows::{Column, ColumnView, TableView};
use crate::seqs::{
    any, find, lemma_filter_next, lemma_filter_none, lemma_position_is, lemma_views_push, position,
    views,
};
use crate::state::{
    column_in_table, column_named, lemma_column_added, namespace_with_id, table_with_id,
    CatalogState,
};
use crate::store_error::StoreFailure;
use crate::table::place_by_id as table_place;
use vstd::prelude::*;

verus! {

/// Columns whose table belongs to the given namespace.
pub open spec fn column_in_namespace(tables: Seq<TableView>, namespace_id: NamespaceId) -> spec_fn(
    ColumnView,
) -> bool {
    |c: ColumnView|
        match find(tables, table_with_id(c.table_id)) {
            Some(t) => t.namespace_id == namespace_id,
            None => false,
        }
}

impl CatalogState {
    /// How many columns the table holds.
    pub open spec fn column_count(self, table_id: TableId) -> nat {
        self.columns.filter(column_in_table(table_id)).len()
    }

    /// The column of the given name in the given table after an upsert, and the catalog
    /// after it: a column that exists is kept as it is, with its type; otherwise a column
    /// of the requested type is appended under the next id.
    pub open spec fn upserted(self, table_id: TableId, name: Seq<char>, column_type: ColumnType)
        -> (CatalogState, ColumnView) {
        match find(self.columns, column_named(table_id, name)) {
            Some(existing) => (self, existing),
            None => {
                let row = ColumnView {
                    id: ColumnId(self.next_column_id),
                    table_id,
                    name,
                    column_type,
                };
                (
                    CatalogState {
                        columns: self.columns.push(row),
                        next_column_id: (self.next_column_id + 1) as i64,
                        ..self
                    },
                    row,
                )
            },
        }
    }

    /// The statement that creates a column or gets the one that exists. Its rows come
    /// from a query that yields the table only while the table holds fewer columns than
    /// its namespace allows: where the table is missing or full, nothing is written and
    /// the statement yields no row, also where the column exists.
    pub open spec fn upsert_column_within_limit(
        self,
        name: Seq<char>,
        table_id: TableId,
        column_type: ColumnType,
    ) -> (CatalogState, Result<ColumnView, StoreFailure>) {
        match find(self.tables, table_with_id(table_id)) {
            None => (self, Err(StoreFailure::RowNotFound)),
            Some(table) => match find(self.namespaces, namespace_with_id(table.namespace_id)) {
                None => (self, Err(StoreFailure::RowNotFound)),
                Some(namespace) => {
                    if self.column_count(table_id) >= namespace.max_columns_per_table {
                        (self, Err(StoreFailure::RowNotFound))
                    } else if find(self.columns, column_named(table_id, name)) is None
                        && self.next_column_id == i64::MAX {
                        (self, Err(StoreFailure::Other))
                    } else {
                        let (after, row) = self.upserted(table_id, name, column_type);
                        (after, Ok(row))
                    }
                },
            },
        }
    }

    /// Creating a column or getting the one that exists.
    pub open spec fn create_or_get_column(
        self,
        name: Seq<char>,
        table_id: TableId,
        column_type: ColumnType,
    ) -> (CatalogState, Result<ColumnView, CatalogErrorView>) {
        let (after, outcome) = self.upsert_column_within_limit(name, table_id, column_type);
        (after, created_or_got(outcome, name, table_id, column_type))
    }

    /// The columns of the tables of the given namespace, in the order of their ids.
    pub open spec fn columns_of_namespace(self, namespace_id: NamespaceId) -> Seq<ColumnView> {
        self.columns.filter(column_in_namespace(self.tables, namespace_id))
    }

    /// The columns of the given table, in the order of their ids.
    pub open spec fn columns_of_table(self, table_id: TableId) -> Seq<ColumnView> {
        self.columns.filter(column_in_table(table_id))
    }
}

/// What `create_or_get` reports for the outcome of its statement. Where the statement
/// yields no row the table's limit is reached. Where it yields a column of another type
/// than the requested one, that is a conflict, though the statement itself succeeded.
pub open spec fn created_or_got(
    outcome: Result<ColumnView, StoreFailure>,
    name: Seq<char>,
    table_id: TableId,
    column_type: ColumnType,
) -> Result<ColumnView, CatalogErrorView> {
    match outcome {
        Ok(row) => if row.column_type == column_type {
            Ok(row)
        } else {
            Err(
                CatalogErrorView::ColumnTypeMismatch {
                    name,
                    existing: row.column_type,
                    new: column_type,
                },
            )
        },
        Err(StoreFailure::RowNotFound) => Err(
            CatalogErrorView::ColumnCreateLimitError { column_name: name, table_id },
        ),
        Err(f) => Err(plain_failure(f)),
    }
}

/// Reports the outcome of the statement of `create_or_get`.
pub fn create_or_get_result(
    outcome: Result<Column, StoreFailure>,
    name: &str,
    table_id: TableId,
    column_type: ColumnType,
) -> (r: Result<Column, CatalogError>)
    ensures
        result_view(r) == created_or_got(row_outcome(outcome), name@, table_id, column_type),
{
    match outcome {
        Ok(row) => {
            if row.column_type == column_type {
                Ok(row)
            } else {
                Err(
                    CatalogError::ColumnTypeMismatch {
                        name: name.to_string(),
                        existing: row.column_type,
                        new: column_type,
                    },
                )
            }
        },
        Err(StoreFailure::RowNotFound) => Err(
            CatalogError::ColumnCreateLimitError { column_name: name.to_string(), table_id },
        ),
        Err(f) => Err(plain_error(f)),
    }
}

/// Where the column of the given name in the given table stands.
fn place_by_name(rows: &Vec<Column>, table_id: TableId, name: &str) -> (at: Option<usize>)
    ensures
        match at {
            Some(i) => position(views(rows@), column_named(table_id, name@)) == Some(i as int),
            None => position(views(rows@), column_named(table_id, name@)) is None,
        },
        any(views(rows@), column_named(table_id, name@)) == at is Some,
{
    let wanted = name.to_string();
    let ghost p = column_named(table_id, name@);
    let mut i: usize = 0;
    while i < rows.len()
        invariant
            i <= rows.len(),
            wanted@ == name@,
            p == column_named(table_id, name@),
            forall|j: int| 0 <= j < i ==> !p(#[trigger] views(rows@)[j]),
        decreases rows.len() - i,
    {
        if rows[i].table_id == table_id && rows[i].name == wanted {
            proof {
                lemma_position_is(views(rows@), p, i as int);
            }
            return Some(i);
        }
        i += 1;
    }
    None
}

/// How many columns the table holds.
fn count_in_table(rows: &Vec<Column>, table_id: TableId) -> (n: usize)
    ensures
        n == views(rows@).filter(column_in_table(table_id)).len(),
{
    let ghost p = column_in_table(table_id);
    let mut n: usize = 0;
    let mut i: usize = 0;
    proof {
        lemma_filter_none(views(rows@), p);
    }
    while i < rows.len()
        invariant
            i <= rows.len(),
            n <= i,
            p == column_in_table(table_id),
            n == views(rows@).take(i as int).filter(p).len(),
        decreases rows.len() - i,
    {
        proof {
            lemma_filter_next(views(rows@), p, i as int);
        }
        if rows[i].table_id == table_id {
            n += 1;
        }
        i += 1;
    }
    n
}

impl MemCatalog {
    /// Upserts one column of an existing table.
    pub(crate) fn upsert(&mut self, table_id: TableId, name: &str, column_type: ColumnType) -> (row:
        Column)
        requires
            old(self).wf(),
            any(old(self)@.tables, table_with_id(table_id)),
            old(self)@.next_column_id < i64::MAX,
        ensures
            final(self).wf(),
            (final(self)@, row@) == old(self)@.upserted(table_id, name@, column_type),
    {
        match place_by_name(&self.columns, table_id, name) {
            Some(i) => self.columns[i].clone(),
            None => {
                let row = Column {
                    id: ColumnId(self.next_column_id),
                    table_id,
                    name: name.to_string(),
                    column_type,
                };
                let stored = row.clone();
                proof {
                    lemma_views_push(self.columns@, stored);
                    lemma_column_added(
                        self@,
                        old(self)@.upserted(table_id, name@, column_type).0,
                        row@,
                    );
                }
                self.columns.push(stored);
                self.next_column_id = self.next_column_id + 1;
                row
            },
        }
    }

    /// Runs the statement that creates a column or gets the one that exists.
    fn upsert_column_within_limit(&mut self, name: &str, table_id: TableId, column_type: ColumnType)
        -> (outcome: Result<Column, StoreFailure>)
        requires
            old(self).wf(),
        ensures
            final(self).wf(),
            (final(self)@, row_outcome(outcome)) == old(self)@.upsert_column_within_limit(
                name@,
                table_id,
                column_type,
            ),
    {
        let table_at = match table_place(&self.tables, table_id) {
            Some(at) => at,
            None => {
                return Err(StoreFailure::RowNotFound);
            },
        };
        let namespace_id = self.tables[table_at].namespace_id;
        let namespace_at = match namespace_place(&self.namespaces, namespace_id) {
            Some(at) => at,
            None => {
                return Err(StoreFailure::RowNotFound);
            },
        };
        let max_columns = self.namespaces[namespace_at].max_columns_per_table;
        let count = count_in_table(&self.columns, table_id);
        if max_columns <= 0 || count >= max_columns as usize {
            return Err(StoreFailure::RowNotFound);
        }
        if self.next_column_id == i64::MAX {
            return match place_by_name(&self.columns, table_id, name) {
                Some(i) => Ok(self.columns[i].clone()),
                None => Err(StoreFailure::Other),
            };
        }
        Ok(self.upsert(table_id, name, column_type))
    }
}

/// Creates a column of the given name and type in a table, or gets the column of that
/// name that the table has, unless the table holds as many columns as it may.
pub fn create_or_get(repos: &mut MemCatalog, name: &str, table_id: TableId, column_type: ColumnType)
    -> (r: Result<Column, CatalogError>)
    requires
        old(repos).wf(),
    ensures
        final(repos).wf(),
        (final(repos)@, result_view(r)) == old(repos)@.create_or_get_column(
            name@,
            table_id,
            column_type,
        ),
{
    let outcome = repos.upsert_column_within_limit(name, table_id, column_type);
    create_or_get_result(outcome, name, table_id, column_type)
}

/// Lists the columns of the tables of the given namespace.
pub fn list_by_namespace_id(repos: &MemCatalog, namespace_id: NamespaceId) -> (r: Result<
    Vec<Column>,
    CatalogError,
>)
    ensures
        result_views(r) == Ok::<Seq<ColumnView>, CatalogErrorView>(
            repos@.columns_of_namespace(namespace_id),
        ),
{
    let rows = &repos.columns;
    let ghost p = column_in_namespace(repos@.tables, namespace_id);
    let mut out: Vec<Column> = Vec::new();
    let mut i: usize = 0;
    proof {
        lemma_filter_none(views(rows@), p);
        assert(views(out@) =~= Seq::<ColumnView>::empty());
    }
    while i < rows.len()
        invariant
            i <= rows.len(),
            p == column_in_namespace(repos@.tables, namespace_id),
            views(out@) == views(rows@).take(i as int).filter(p),
        decreases rows.len() - i,
    {
        proof {
            lemma_filter_next(views(rows@), p, i as int);
        }
        let in_namespace = match table_place(&repos.tables, rows[i].table_id) {
            Some(at) => repos.tables[at].namespace_id == namespace_id,
            None => false,
        };
        if in_namespace {
            let row = rows[i].clone();
            out.push(row);
        }
        i += 1;
    }
    list_result(Ok(out))
}

/// Lists the columns of the given table.
pub fn list_by_table_id(repos: &MemCatalog, table_id: TableId) -> (r: Result<
    Vec<Column>,
    CatalogError,
>)
    ensures
        result_views(r) == Ok::<Seq<ColumnView>, CatalogErrorView>(
            repos@.columns_of_table(table_id),
        ),
{
    let rows = &repos.columns;
    let ghost p = column_in_table(table_id);
    let mut out: Vec<Column> = Vec::new();
    let mut i: usize = 0;
    proof {
        lemma_filter_none(views(rows@), p);
        assert(views(out@) =~= Seq::<ColumnView>::empty());
    }
    while i < rows.len()
        invariant
            i <= rows.len(),
            p == column_in_table(table_id),
            views(out@) == views(rows@).take(i as int).filter(p),
        decreases rows.len() - i,
    {
        proof {
            lemma_filter_next(views(rows@), p, i as int);
        }
        if rows[i].table_id == table_id {
            let row = rows[i].clone();
            out.push(row);
        }
        i += 1;
    }
    list_result(Ok(out))
}

/// Lists every column.
pub fn list(repos: &MemCatalog) -> (r: Result<Vec<Column>, CatalogError>)
    ensures
        result_views(r) == Ok::<Seq<ColumnView>, CatalogErrorView>(repos@.columns),
{
    let rows = &repos.columns;
    let mut out: Vec<Column> = Vec::new();
    let mut i: usize = 0;
    proof {
        assert(views(out@) =~= views(rows@).take(0));
    }
    while i < rows.len()
        invariant
            i <= rows.len(),
            views(out@) == views(rows@).take(i as int),
        decreases rows.len() - i,
    {
        let row = rows[i].clone();
        proof {
            assert(views(rows@).take(i + 1) =~= views(rows@).take(i as int).push(row@));
        }
        out.push(row);
        i += 1;
    }
    proof {
        assert(views(rows@).take(rows.len() as int) =~= views(rows@));
    }
    list_result(Ok(out))
}


/// Columns whose type differs from the type that the batch asks for their name.
pub open spec fn mismatched(batch: Seq<ColumnRequestView>) -> spec_fn(ColumnView) -> bool {
    |c: ColumnView| requested_type(batch, c.name) != Some(c.column_type)
}

/// Whether the rows can be the answer to the batch: as many rows as requests, each row
/// under a name that the batch asks for.
pub open spec fn answers(rows: Seq<ColumnView>, batch: Seq<ColumnRequestView>) -> bool {
    &&& rows.len() == batch.len()
    &&& forall|i: int|
        0 <= i < rows.len() ==> requested_type(batch, (#[trigger] rows[i]).name) is Some
}

/// The rows that answer a batch, checked against it: the first row whose type differs
/// from the requested one is reported as a conflict, with both types; without such a row
/// the rows are handed on.
pub open spec fn checked(rows: Seq<ColumnView>, batch: Seq<ColumnRequestView>) -> Result<
    Seq<ColumnView>,
    CatalogErrorView,
> {
    match position(rows, mismatched(batch)) {
        Some(i) => Err(
            CatalogErrorView::ColumnTypeMismatch {
                name: rows[i].name,
                existing: rows[i].column_type,
                new: requested_type(batch, rows[i].name).unwrap(),
            },
        ),
        None => Ok(rows),
    }
}

/// What `create_or_get_many_unchecked` reports for the outcome of its statement.
pub open spec fn many_created(
    outcome: Result<Seq<ColumnView>, StoreFailure>,
    batch: Seq<ColumnRequestView>,
) -> Result<Seq<ColumnView>, CatalogErrorView> {
    match outcome {
        Ok(rows) => checked(rows, batch),
        Err(f) => Err(plain_failure(f)),
    }
}

impl CatalogState {
    /// The catalog after the upsert of each request in turn, and the columns that the
    /// upserts yield, in the order of the requests.
    pub open spec fn upsert_each(self, table_id: TableId, batch: Seq<ColumnRequestView>) -> (
        CatalogState,
        Seq<ColumnView>,
    )
        decreases batch.len(),
    {
        if batch.len() == 0 {
            (self, Seq::empty())
        } else {
            let (mid, rows) = self.upsert_each(table_id, batch.drop_last());
            let (after, row) = mid.upserted(table_id, batch.last().name, batch.last().column_type);
            (after, rows.push(row))
        }
    }

    /// The statement that upserts a batch of columns in the order of the batch, which is
    /// the order of their names. It checks no limit. An empty batch writes nothing. The
    /// statement is refused as a whole where the table is missing, and where fewer ids
    /// are left than the batch has requests.
    pub open spec fn upsert_columns(self, table_id: TableId, batch: Seq<ColumnRequestView>) -> (
        CatalogState,
        Result<Seq<ColumnView>, StoreFailure>,
    ) {
        if batch.len() == 0 {
            (self, Ok(Seq::empty()))
        } else if !any(self.tables, table_with_id(table_id)) {
            (self, Err(StoreFailure::ForeignKeyViolation))
        } else if self.next_column_id + batch.len() > i64::MAX {
            (self, Err(StoreFailure::Other))
        } else {
            let (after, rows) = self.upsert_each(table_id, batch);
            (after, Ok(rows))
        }
    }

    /// Creating the columns of a batch or getting those that exist. The columns that the
    /// statement wrote stay written where the answer reports a conflict of types.
    pub open spec fn create_or_get_many_columns(
        self,
        table_id: TableId,
        batch: Seq<ColumnRequestView>,
    ) -> (CatalogState, Result<Seq<ColumnView>, CatalogErrorView>) {
        let (after, outcome) = self.upsert_columns(table_id, batch);
        (after, many_created(outcome, batch))
    }
}

/// The upserts of a batch yield one column for each request, under the name of the
/// request and in the given table.
pub proof fn lemma_upsert_each_names(
    s: CatalogState,
    table_id: TableId,
    batch: Seq<ColumnRequestView>,
)
    ensures
        s.upsert_each(table_id, batch).1.len() == batch.len(),
        forall|i: int|
            0 <= i < batch.len() ==> {
                &&& (#[trigger] s.upsert_each(table_id, batch).1[i]).name == batch[i].name
                &&& s.upsert_each(table_id, batch).1[i].table_id == table_id
            },
    decreases batch.len(),
{
    if batch.len() > 0 {
        let front = batch.drop_last();
        lemma_upsert_each_names(s, table_id, front);
        let (mid, rows) = s.upsert_each(table_id, front);
        let p = column_named(table_id, batch.last().name);
        assert forall|i: int| 0 <= i < batch.len() implies {
            &&& (#[trigger] s.upsert_each(table_id, batch).1[i]).name == batch[i].name
            &&& s.upsert_each(table_id, batch).1[i].table_id == table_id
        } by {
            if i < front.len() {
                assert(s.upsert_each(table_id, batch).1[i] == rows[i]);
                assert(front[i] == batch[i]);
            }
        }
    }
}

/// Tells whether the rows can be the answer to the batch.
pub fn answers_batch(rows: &Vec<Column>, batch: &ColumnBatch) -> (b: bool)
    requires
        batch.wf(),
    ensures
        b == answers(views(rows@), batch@),
{
    if rows.len() != batch.len() {
        return false;
    }
    let mut i: usize = 0;
    while i < rows.len()
        invariant
            i <= rows.len(),
            batch.wf(),
            rows.len() == batch@.len(),
            forall|j: int|
                0 <= j < i ==> requested_type(batch@, (#[trigger] views(rows@)[j]).name) is Some,
        decreases rows.len() - i,
    {
        if batch.get(rows[i].name.as_str()).is_none() {
            assert(requested_type(batch@, views(rows@)[i as int].name) is None);
            return false;
        }
        i += 1;
    }
    true
}

/// Reports the outcome of the statement of `create_or_get_many_unchecked`: every row is
/// held against the type that the batch asks for its name.
pub fn many_result(outcome: Result<Vec<Column>, StoreFailure>, batch: &ColumnBatch) -> (r: Result<
    Vec<Column>,
    CatalogError,
>)
    requires
        batch.wf(),
        outcome matches Ok(rows) ==> answers(views(rows@), batch@),
    ensures
        result_views(r) == many_created(rows_outcome(outcome), batch@),
{
    match outcome {
        Ok(rows) => {
            let ghost p = mismatched(batch@);
            let mut i: usize = 0;
            while i < rows.len()
                invariant
                    i <= rows.len(),
                    batch.wf(),
                    p == mismatched(batch@),
                    rows_outcome(outcome) == Ok::<Seq<ColumnView>, StoreFailure>(views(rows@)),
                    answers(views(rows@), batch@),
                    forall|j: int| 0 <= j < i ==> !p(#[trigger] views(rows@)[j]),
                decreases rows.len() - i,
            {
                let want = batch.get(rows[i].name.as_str());
                assert(requested_type(batch@, views(rows@)[i as int].name) is Some);
                match want {
                    Some(want) => {
                        if rows[i].column_type != want {
                            proof {
                                lemma_position_is(views(rows@), p, i as int);
                            }
                            return Err(
                                CatalogError::ColumnTypeMismatch {
                                    name: rows[i].name.clone(),
                                    existing: rows[i].column_type,
                                    new: want,
                                },
                            );
                        }
                    },
                    None => {},
                }
                i += 1;
            }
            Ok(rows)
        },
        Err(f) => Err(plain_error(f)),
    }
}

impl MemCatalog {
    /// Runs the statement that upserts a batch of columns.
    fn upsert_columns(&mut self, table_id: TableId, batch: &ColumnBatch) -> (outcome: Result<
        Vec<Column>,
        StoreFailure,
    >)
        requires
            old(self).wf(),
            batch.wf(),
        ensures
            final(self).wf(),
            (final(self)@, rows_outcome(outcome)) == old(self)@.upsert_columns(table_id, batch@),
    {
        let entries = batch.entries();
        let mut out: Vec<Column> = Vec::new();
        if entries.len() == 0 {
            assert(views(out@) =~= Seq::<ColumnView>::empty());
            return Ok(out);
        }
        if table_place(&self.tables, table_id).is_none() {
            return Err(StoreFailure::ForeignKeyViolation);
        }
        if self.next_column_id as i128 + entries.len() as i128 > i64::MAX as i128 {
            return Err(StoreFailure::Other);
        }
        let mut i: usize = 0;
        proof {
            assert(batch@.take(0) =~= Seq::<ColumnRequestView>::empty());
            assert(views(out@) =~= Seq::<ColumnView>::empty());
        }
        while i < entries.len()
            invariant
                i <= entries.len(),
                views(entries@) == batch@,
                self.wf(),
                any(self@.tables, table_with_id(table_id)),
                self@.next_column_id <= old(self)@.next_column_id + i,
                old(self)@.next_column_id + entries.len() <= i64::MAX,
                (self@, views(out@)) == old(self)@.upsert_each(table_id, batch@.take(i as int)),
            decreases entries.len() - i,
        {
            let row = self.upsert(table_id, entries[i].name.as_str(), entries[i].column_type);
            proof {
                assert(batch@.take(i + 1).drop_last() =~= batch@.take(i as int));
                assert(batch@.take(i + 1).last() == batch@[i as int]);
                assert(views(entries@)[i as int] == entries@[i as int]@);
            }
            out.push(row);
            i += 1;
        }
        proof {
            assert(batch@.take(entries.len() as int) =~= batch@);
        }
        Ok(out)
    }
}

/// Creates the columns of a batch in a table, or gets those that the table has. The
/// table's limit is not checked: that is left to the caller. The columns are written in
/// the order of their names, so that two batches that overlap take their rows in the same
/// order.
pub fn create_or_get_many_unchecked(
    repos: &mut MemCatalog,
    table_id: TableId,
    columns: &ColumnBatch,
) -> (r: Result<Vec<Column>, CatalogError>)
    requires
        old(repos).wf(),
        columns.wf(),
    ensures
        final(repos).wf(),
        (final(repos)@, result_views(r)) == old(repos)@.create_or_get_many_columns(
            table_id,
            columns@,
        ),
{
    let outcome = repos.upsert_columns(table_id, columns);
    proof {
        if outcome is Ok {
            let rows = old(repos)@.upsert_columns(table_id, columns@).1->Ok_0;
            if columns@.len() > 0 {
                lemma_upsert_each_names(old(repos)@, table_id, columns@);
            }
            assert forall|i: int| 0 <= i < rows.len() implies requested_type(
                columns@,
                (#[trigger] rows[i]).name,
            ) is Some by {
                crate::batch::lemma_requested_at(columns@, i);
            }
        }
    }
    many_result(outcome, columns)
}

} // verus!
