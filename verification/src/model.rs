//! The catalog's data model: identifiers, the rows of each relation, and the
//! mathematical view of each row that the contracts speak of.

use vstd::prelude::*;

verus! {

/// How many tables a new namespace may hold.
pub const DEFAULT_MAX_TABLES: i32 = 10_000;

/// How many columns each table of a new namespace may hold.
pub const DEFAULT_MAX_COLUMNS_PER_TABLE: i32 = 200;

/// The largest number of data files that one bulk sweep touches.
pub const MAX_PARQUET_FILES_SELECTED_ONCE: i64 = 1_000;

/// Unique id of a namespace.
#[derive(Debug, Clone, Copy, PartialEq, Eq, Structural, PartialOrd, Ord, Hash)]
pub struct NamespaceId(pub i64);

/// Unique id of a table.
#[derive(Debug, Clone, Copy, PartialEq, Eq, Structural, PartialOrd, Ord, Hash)]
pub struct TableId(pub i64);

/// Unique id of a column.
#[derive(Debug, Clone, Copy, PartialEq, Eq, Structural, PartialOrd, Ord, Hash)]
pub struct ColumnId(pub i64);

/// Unique id of a partition.
#[derive(Debug, Clone, Copy, PartialEq, Eq, Structural, PartialOrd, Ord, Hash)]
pub struct PartitionId(pub i64);

/// Unique id of a data file row.
#[derive(Debug, Clone, Copy, PartialEq, Eq, Structural, PartialOrd, Ord, Hash)]
pub struct ParquetFileId(pub i64);

/// Opaque content identifier of a data file: the 128 bits of its UUID.
#[derive(Debug, Clone, Copy, PartialEq, Eq, Structural, PartialOrd, Ord, Hash)]
pub struct ObjectStoreId(pub u128);

/// Nanoseconds since the epoch.
#[derive(Debug, Clone, Copy, PartialEq, Eq, Structural, PartialOrd, Ord, Hash)]
pub struct Timestamp(pub i64);

impl NamespaceId {
    pub fn new(v: i64) -> (id: Self)
        ensures
            id == NamespaceId(v),
    {
        NamespaceId(v)
    }

    pub fn get(&self) -> (v: i64)
        ensures
            v == self.0,
    {
        self.0
    }
}

impl TableId {
    pub fn new(v: i64) -> (id: Self)
        ensures
            id == TableId(v),
    {
        TableId(v)
    }

    pub fn get(&self) -> (v: i64)
        ensures
            v == self.0,
    {
        self.0
    }
}

impl ColumnId {
    pub fn new(v: i64) -> (id: Self)
        ensures
            id == ColumnId(v),
    {
        ColumnId(v)
    }

    pub fn get(&self) -> (v: i64)
        ensures
            v == self.0,
    {
        self.0
    }
}

impl PartitionId {
    pub fn new(v: i64) -> (id: Self)
        ensures
            id == PartitionId(v),
    {
        PartitionId(v)
    }

    pub fn get(&self) -> (v: i64)
        ensures
            v == self.0,
    {
        self.0
    }
}

impl ParquetFileId {
    pub fn new(v: i64) -> (id: Self)
        ensures
            id == ParquetFileId(v),
    {
        ParquetFileId(v)
    }

    pub fn get(&self) -> (v: i64)
        ensures
            v == self.0,
    {
        self.0
    }
}

impl ObjectStoreId {
    pub fn new(v: u128) -> (id: Self)
        ensures
            id == ObjectStoreId(v),
    {
        ObjectStoreId(v)
    }

    pub fn get(&self) -> (v: u128)
        ensures
            v == self.0,
    {
        self.0
    }
}

impl Timestamp {
    pub fn new(v: i64) -> (t: Self)
        ensures
            t == Timestamp(v),
    {
        Timestamp(v)
    }

    pub fn get(&self) -> (v: i64)
        ensures
            v == self.0,
    {
        self.0
    }
}

/// The type of a column. The numeric code of each type is what the store persists.
#[derive(Debug, Clone, Copy, PartialEq, Eq, Structural, Hash)]
pub enum ColumnType {
    I64,
    U64,
    F64,
    Bool,
    String,
    Time,
    Tag,
}

impl ColumnType {
    /// The persisted code of a column type.
    pub open spec fn spec_code(self) -> i8 {
        match self {
            ColumnType::I64 => 1,
            ColumnType::U64 => 2,
            ColumnType::F64 => 3,
            ColumnType::Bool => 4,
            ColumnType::String => 5,
            ColumnType::Time => 6,
            ColumnType::Tag => 7,
        }
    }

    /// The column type that a persisted code stands for, if it stands for one.
    pub open spec fn spec_from_code(code: i16) -> Option<ColumnType> {
        if code == 1 {
            Some(ColumnType::I64)
        } else if code == 2 {
            Some(ColumnType::U64)
        } else if code == 3 {
            Some(ColumnType::F64)
        } else if code == 4 {
            Some(ColumnType::Bool)
        } else if code == 5 {
            Some(ColumnType::String)
        } else if code == 6 {
            Some(ColumnType::Time)
        } else if code == 7 {
            Some(ColumnType::Tag)
        } else {
            None
        }
    }

    #[verifier::when_used_as_spec(spec_code)]
    pub fn code(self) -> (c: i8)
        ensures
            c == self.spec_code(),
    {
        match self {
            ColumnType::I64 => 1,
            ColumnType::U64 => 2,
            ColumnType::F64 => 3,
            ColumnType::Bool => 4,
            ColumnType::String => 5,
            ColumnType::Time => 6,
            ColumnType::Tag => 7,
        }
    }

    pub fn from_code(code: i16) -> (t: Option<ColumnType>)
        ensures
            t == Self::spec_from_code(code),
    {
        if code == 1 {
            Some(ColumnType::I64)
        } else if code == 2 {
            Some(ColumnType::U64)
        } else if code == 3 {
            Some(ColumnType::F64)
        } else if code == 4 {
            Some(ColumnType::Bool)
        } else if code == 5 {
            Some(ColumnType::String)
        } else if code == 6 {
            Some(ColumnType::Time)
        } else if code == 7 {
            Some(ColumnType::Tag)
        } else {
            None
        }
    }

    /// Every column type is recovered from its code, and no two types share a code.
    pub proof fn lemma_code_round_trip(t: ColumnType)
        ensures
            Self::spec_from_code(t.spec_code() as i16) == Some(t),
            1 <= t.spec_code() <= 7,
    {
    }
}

/// Position of a data file in the merge pipeline, lowest first.
#[derive(Debug, Clone, Copy, PartialEq, Eq, Structural, Hash)]
pub enum CompactionLevel {
    /// Freshly written.
    Initial,
    /// Merged so that it overlaps no other file of its level.
    FileNonOverlapped,
    /// Fully merged.
    Final,
}

impl CompactionLevel {
    pub open spec fn spec_rank(self) -> i16 {
        match self {
            CompactionLevel::Initial => 0,
            CompactionLevel::FileNonOverlapped => 1,
            CompactionLevel::Final => 2,
        }
    }

    /// The level's rank, which is also its persisted code.
    #[verifier::when_used_as_spec(spec_rank)]
    pub fn rank(self) -> (r: i16)
        ensures
            r == self.spec_rank(),
    {
        match self {
            CompactionLevel::Initial => 0,
            CompactionLevel::FileNonOverlapped => 1,
            CompactionLevel::Final => 2,
        }
    }

    pub open spec fn spec_from_rank(rank: i16) -> Option<CompactionLevel> {
        if rank == 0 {
            Some(CompactionLevel::Initial)
        } else if rank == 1 {
            Some(CompactionLevel::FileNonOverlapped)
        } else if rank == 2 {
            Some(CompactionLevel::Final)
        } else {
            None
        }
    }

    pub fn from_rank(rank: i16) -> (l: Option<CompactionLevel>)
        ensures
            l == Self::spec_from_rank(rank),
    {
        if rank == 0 {
            Some(CompactionLevel::Initial)
        } else if rank == 1 {
            Some(CompactionLevel::FileNonOverlapped)
        } else if rank == 2 {
            Some(CompactionLevel::Final)
        } else {
            None
        }
    }

    /// The level that follows this one; the last level follows itself.
    pub fn next(self) -> (l: CompactionLevel)
        ensures
            l.spec_rank() == if self.spec_rank() < 2 {
                self.spec_rank() + 1
            } else {
                2
            },
    {
        match self {
            CompactionLevel::Initial => CompactionLevel::FileNonOverlapped,
            CompactionLevel::FileNonOverlapped => CompactionLevel::Final,
            CompactionLevel::Final => CompactionLevel::Final,
        }
    }
}

/// Which rows a query over a soft-deletable relation admits.
#[derive(Debug, Clone, Copy, PartialEq, Eq, Structural, Hash)]
pub enum SoftDeletedRows {
    /// Every row, soft-deleted or not.
    AllRows,
    /// Only rows that are not soft-deleted.
    ExcludeDeleted,
    /// Only soft-deleted rows.
    OnlyDeleted,
}

impl SoftDeletedRows {
    /// Whether a row with the given deletion mark is admitted.
    pub open spec fn spec_admits(self, deleted_at: Option<Timestamp>) -> bool {
        match self {
            SoftDeletedRows::AllRows => true,
            SoftDeletedRows::ExcludeDeleted => deleted_at is None,
            SoftDeletedRows::OnlyDeleted => deleted_at is Some,
        }
    }

    #[verifier::when_used_as_spec(spec_admits)]
    pub fn admits(self, deleted_at: Option<Timestamp>) -> (b: bool)
        ensures
            b == self.spec_admits(deleted_at),
    {
        match self {
            SoftDeletedRows::AllRows => true,
            SoftDeletedRows::ExcludeDeleted => deleted_at.is_none(),
            SoftDeletedRows::OnlyDeleted => deleted_at.is_some(),
        }
    }

    /// The predicate over the column `deleted_at` that admits the same rows.
    pub fn as_sql_predicate(self) -> (sql: &'static str)
        ensures
            sql@ == match self {
                SoftDeletedRows::AllRows => "1=1"@,
                SoftDeletedRows::ExcludeDeleted => "deleted_at IS NULL"@,
                SoftDeletedRows::OnlyDeleted => "deleted_at IS NOT NULL"@,
            },
    {
        match self {
            SoftDeletedRows::AllRows => "1=1",
            SoftDeletedRows::ExcludeDeleted => "deleted_at IS NULL",
            SoftDeletedRows::OnlyDeleted => "deleted_at IS NOT NULL",
        }
    }
}

} // verus!
