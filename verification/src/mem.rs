//! The catalog held in memory: the relations as lists of rows.

use crate::files::ParquetFile;
use crate::rows::{Column, Namespace, Partition, SkippedCompaction, Table};
use crate::seqs::views;
use crate::state::CatalogState;
use vstd::prelude::*;

verus! {

/// A catalog that keeps its rows in memory. Every operation on it is atomic: it takes
/// the catalog from one well-formed content to the next.
#[derive(Debug)]
pub struct MemCatalog {
    pub(crate) namespaces: Vec<Namespace>,
    pub(crate) tables: Vec<Table>,
    pub(crate) columns: Vec<Column>,
    pub(crate) partitions: Vec<Partition>,
    pub(crate) skipped_compactions: Vec<SkippedCompaction>,
    pub(crate) parquet_files: Vec<ParquetFile>,
    pub(crate) next_namespace_id: i64,
    pub(crate) next_table_id: i64,
    pub(crate) next_column_id: i64,
    pub(crate) next_partition_id: i64,
    pub(crate) next_parquet_file_id: i64,
}

impl View for MemCatalog {
    type V = CatalogState;

    open(crate) spec fn view(&self) -> CatalogState {
        CatalogState {
            namespaces: views(self.namespaces@),
            tables: views(self.tables@),
            columns: views(self.columns@),
            partitions: views(self.partitions@),
            skipped_compactions: views(self.skipped_compactions@),
            parquet_files: views(self.parquet_files@),
            next_namespace_id: self.next_namespace_id,
            next_table_id: self.next_table_id,
            next_column_id: self.next_column_id,
            next_partition_id: self.next_partition_id,
            next_parquet_file_id: self.next_parquet_file_id,
        }
    }
}

impl MemCatalog {
    /// The invariant of the catalog: that of its content.
    pub open spec fn wf(&self) -> bool {
        self@.wf()
    }

    /// A catalog that holds nothing.
    pub fn new() -> (repos: Self)
        ensures
            repos.wf(),
            repos@ == CatalogState::empty(),
    {
        let repos = MemCatalog {
            namespaces: Vec::new(),
            tables: Vec::new(),
            columns: Vec::new(),
            partitions: Vec::new(),
            skipped_compactions: Vec::new(),
            parquet_files: Vec::new(),
            next_namespace_id: 1,
            next_table_id: 1,
            next_column_id: 1,
            next_partition_id: 1,
            next_parquet_file_id: 1,
        };
        assert(repos@.namespaces =~= Seq::empty());
        assert(repos@.tables =~= Seq::empty());
        assert(repos@.columns =~= Seq::empty());
        assert(repos@.partitions =~= Seq::empty());
        assert(repos@.skipped_compactions =~= Seq::empty());
        assert(repos@.parquet_files =~= Seq::empty());
        repos
    }
}

} // verus!
