//! The metadata catalog of a columnar time-series store: the record of namespaces,
//! tables, columns, partitions and the data files of each partition.
//!
//! The catalog is described twice. [`state::CatalogState`] is its content as a
//! mathematical value, and the module of each repository says, as functions of that
//! value, what each statement writes and yields and what the repository answers.
//! [`mem::MemCatalog`] holds the same content in memory; every operation on it is proved
//! to do what these functions say and to keep the content well-formed, and [`laws`]
//! proves what follows for all contents.
//!
//! A store other than the memory runs the statements of [`sql`] itself and hands their
//! outcomes to the functions that end in `_result`, which turn them into the answers of
//! the repositories; [`store_error`] reads the failures of the driver, and [`transition`]
//! says which statement of the transition of a compaction such a store runs next.

pub mod batch;
pub mod billing;
pub mod column;
pub mod error;
pub mod files;
pub mod laws;
pub mod mem;
pub mod model;
pub mod names;
pub mod namespace;
pub mod options;
pub mod outcome;
pub mod parquet_file;
pub mod partition;
pub mod pods;
pub mod rows;
pub mod seqs;
pub mod sql;
pub mod state;
pub mod store_error;
pub mod table;
pub mod transition;
