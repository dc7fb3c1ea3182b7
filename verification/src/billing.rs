//! The size of the live data of a namespace: the bytes of its files that are not marked
//! for deletion.

use crate::files::ParquetFileView;
use crate::mem::MemCatalog;
use crate::model::NamespaceId;
use crate::seqs::views;
use crate::state::CatalogState;
use vstd::prelude::*;

verus! {

/// What a file counts towards the live size of a namespace: its size where it belongs to
/// the namespace and is not marked for deletion, nothing otherwise.
pub open spec fn live_bytes(f: ParquetFileView, namespace_id: NamespaceId) -> int {
    if f.namespace_id == namespace_id && f.to_delete is None {
        f.file_size_bytes as int
    } else {
        0
    }
}

/// The sum of what the files count towards the live size of a namespace.
pub open spec fn live_size(files: Seq<ParquetFileView>, namespace_id: NamespaceId) -> int
    decreases files.len(),
{
    if files.len() == 0 {
        0
    } else {
        live_size(files.drop_last(), namespace_id) + live_bytes(files.last(), namespace_id)
    }
}

impl CatalogState {
    /// The size of the live data of a namespace.
    pub open spec fn total_file_size_bytes(self, namespace_id: NamespaceId) -> int {
        live_size(self.parquet_files, namespace_id)
    }
}

/// The live size of files lies within the bounds that their number sets.
pub proof fn lemma_live_size_bounds(files: Seq<ParquetFileView>, namespace_id: NamespaceId)
    ensures
        -files.len() * 0x8000_0000_0000_0000 <= live_size(files, namespace_id) <= files.len()
            * 0x8000_0000_0000_0000,
    decreases files.len(),
{
    if files.len() > 0 {
        lemma_live_size_bounds(files.drop_last(), namespace_id);
    }
}

/// Sums up the bytes of the files of a namespace that are not marked for deletion.
pub fn total_file_size_bytes(repos: &MemCatalog, namespace_id: NamespaceId) -> (total: i128)
    ensures
        total == repos@.total_file_size_bytes(namespace_id),
{
    let rows = &repos.parquet_files;
    let ghost files = views(rows@);
    let mut total: i128 = 0;
    let mut i: usize = 0;
    proof {
        assert(files.take(0) =~= Seq::<ParquetFileView>::empty());
    }
    while i < rows.len()
        invariant
            i <= rows.len(),
            files == views(rows@),
            total == live_size(files.take(i as int), namespace_id),
        decreases rows.len() - i,
    {
        proof {
            lemma_live_size_bounds(files.take(i as int), namespace_id);
            assert(files.take(i + 1).drop_last() =~= files.take(i as int));
            assert(files.take(i + 1).last() == rows@[i as int]@);
        }
        if rows[i].namespace_id == namespace_id && rows[i].to_delete.is_none() {
            total = total + rows[i].file_size_bytes as i128;
        }
        i += 1;
    }
    proof {
        assert(files.take(rows.len() as int) =~= files);
    }
    total
}

} // verus!
