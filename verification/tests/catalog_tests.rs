use iox_catalog::batch::ColumnBatch;
use iox_catalog::billing::total_file_size_bytes;
use iox_catalog::error::{CasFailure, CatalogError, ErrorKind};
use iox_catalog::files::{ColumnSet, ParquetFileParams};
use iox_catalog::mem::MemCatalog;
use iox_catalog::model::{
    ColumnId, ColumnType, CompactionLevel, NamespaceId, ObjectStoreId, ParquetFileId,
    PartitionId, SoftDeletedRows, TableId, Timestamp, DEFAULT_MAX_COLUMNS_PER_TABLE,
    DEFAULT_MAX_TABLES,
};
use iox_catalog::rows::{Namespace, PartitionKey, Table};
use iox_catalog::{namespace, parquet_file, partition, table};

fn arbitrary_namespace(repos: &mut MemCatalog, name: &str) -> Namespace {
    namespace::create(repos, name, None, None).expect("namespace should be created")
}

fn arbitrary_table(repos: &mut MemCatalog, name: &str, namespace: &Namespace) -> Table {
    table::create(repos, name, namespace.id).expect("table should be created")
}

fn new_content_id() -> ObjectStoreId {
    ObjectStoreId::new(uuid::Uuid::new_v4().as_u128())
}

fn file_params(
    namespace_id: NamespaceId,
    table_id: TableId,
    partition_id: PartitionId,
    object_store_id: ObjectStoreId,
    size: i64,
    max_time: i64,
) -> ParquetFileParams {
    ParquetFileParams {
        namespace_id,
        table_id,
        partition_id,
        object_store_id,
        min_time: Timestamp::new(1),
        max_time: Timestamp::new(max_time),
        file_size_bytes: size,
        row_count: 0,
        compaction_level: CompactionLevel::Initial,
        created_at: Timestamp::new(1_000),
        column_set: ColumnSet::new(vec![ColumnId::new(1), ColumnId::new(2)]),
        max_l0_created_at: Timestamp::new(1_000),
    }
}

#[test]
fn test_partition_create_or_get_idempotent() {
    let mut repos = MemCatalog::new();

    let namespace = arbitrary_namespace(&mut repos, "ns4");
    let table_id = arbitrary_table(&mut repos, "table", &namespace).id;

    let key = "bananas";

    let a = partition::create_or_get(&mut repos, PartitionKey::new(key), table_id)
        .expect("should create OK");

    // Call create_or_get for the same (key, table_id) pair, to ensure the write is idempotent.
    let b = partition::create_or_get(&mut repos, PartitionKey::new(key), table_id)
        .expect("idempotent write should succeed");

    assert_eq!(a, b);
    assert_eq!(partition::list_ids(&repos).unwrap(), vec![a.id]);
}

#[test]
fn test_billing_summary_on_parqet_file_creation() {
    let mut repos = MemCatalog::new();

    let namespace = arbitrary_namespace(&mut repos, "ns4");
    let namespace_id = namespace.id;
    let table_id = arbitrary_table(&mut repos, "table", &namespace).id;

    let key = "bananas";

    let partition_id = partition::create_or_get(&mut repos, PartitionKey::new(key), table_id)
        .expect("should create OK")
        .id;

    // parquet file to create- all we care about here is the size, the rest is to satisfy
    // the constraints of the catalog
    let time_now = Timestamp::new(1_700_000_000_000_000_000);
    let mut params = ParquetFileParams {
        namespace_id,
        table_id,
        partition_id,
        object_store_id: new_content_id(),
        min_time: Timestamp::new(1),
        max_time: Timestamp::new(5),
        file_size_bytes: 1337,
        row_count: 0,
        compaction_level: CompactionLevel::Initial, // level of file of new writes
        created_at: time_now,
        column_set: ColumnSet::new(vec![ColumnId::new(1), ColumnId::new(2)]),
        max_l0_created_at: time_now,
    };
    let first_file = parquet_file::create(&mut repos, params.clone())
        .expect("create parquet file should succeed");
    // insert the same again with a different size; we should then have 3x1337 as total file size
    params.object_store_id = new_content_id();
    params.file_size_bytes *= 2;
    let _second_file = parquet_file::create(&mut repos, params.clone())
        .expect("create parquet file should succeed");

    // after adding two files we should have 3x1337 in the summary
    let total_file_size_bytes_now = total_file_size_bytes(&repos, namespace_id);
    assert_eq!(total_file_size_bytes_now, 1337 * 3);

    // flag first_file for deletion and assert that the total file size is reduced accordingly.
    parquet_file::flag_for_delete(&mut repos, first_file.id, time_now)
        .expect("flag parquet file for deletion should succeed");
    let total_file_size_bytes_now = total_file_size_bytes(&repos, namespace_id);
    // we marked the first file of size 1337 for deletion leaving only the second that was 2x that
    assert_eq!(total_file_size_bytes_now, 1337 * 2);

    // actually deleting shouldn't change the total
    let now = Timestamp::new(time_now.get() + 1);
    let deleted = parquet_file::delete_old_ids_only(&mut repos, now)
        .expect("parquet file deletion should succeed");
    assert_eq!(deleted, vec![first_file.id]);
    let total_file_size_bytes_now = total_file_size_bytes(&repos, namespace_id);
    assert_eq!(total_file_size_bytes_now, 1337 * 2);
}

#[test]
fn live_size_of_two_files_follows_flag_and_purge() {
    let mut repos = MemCatalog::new();
    let namespace = arbitrary_namespace(&mut repos, "ns");
    let other = arbitrary_namespace(&mut repos, "other");
    let table_id = arbitrary_table(&mut repos, "table", &namespace).id;
    let partition_id =
        partition::create_or_get(&mut repos, PartitionKey::new("k"), table_id).unwrap().id;

    let first = parquet_file::create(
        &mut repos,
        file_params(namespace.id, table_id, partition_id, ObjectStoreId::new(1), 100, 5),
    )
    .unwrap();
    parquet_file::create(
        &mut repos,
        file_params(namespace.id, table_id, partition_id, ObjectStoreId::new(2), 200, 5),
    )
    .unwrap();
    assert_eq!(total_file_size_bytes(&repos, namespace.id), 300);
    assert_eq!(total_file_size_bytes(&repos, other.id), 0);

    parquet_file::flag_for_delete(&mut repos, first.id, Timestamp::new(10)).unwrap();
    assert_eq!(total_file_size_bytes(&repos, namespace.id), 200);
    // flagging again does not take the size off twice
    parquet_file::flag_for_delete(&mut repos, first.id, Timestamp::new(11)).unwrap();
    assert_eq!(total_file_size_bytes(&repos, namespace.id), 200);

    // a purge with a threshold before the mark removes nothing
    assert_eq!(
        parquet_file::delete_old_ids_only(&mut repos, Timestamp::new(11)).unwrap(),
        Vec::<ParquetFileId>::new()
    );
    assert_eq!(parquet_file::list_all(&repos).unwrap().len(), 2);
    assert_eq!(
        parquet_file::delete_old_ids_only(&mut repos, Timestamp::new(12)).unwrap(),
        vec![first.id]
    );
    assert_eq!(parquet_file::list_all(&repos).unwrap().len(), 1);
    assert_eq!(total_file_size_bytes(&repos, namespace.id), 200);
}

#[test]
fn namespace_create_defaults_and_name_collision() {
    let mut repos = MemCatalog::new();
    let created = namespace::create(&mut repos, "ns", None, Some(3_600)).unwrap();
    assert_eq!(created.id, NamespaceId::new(1));
    assert_eq!(created.name, "ns");
    assert_eq!(created.retention_period_ns, Some(3_600));
    assert_eq!(created.max_tables, DEFAULT_MAX_TABLES);
    assert_eq!(created.max_columns_per_table, DEFAULT_MAX_COLUMNS_PER_TABLE);
    assert_eq!(created.deleted_at, None);

    let again = namespace::create(&mut repos, "ns", None, None);
    assert_eq!(again, Err(CatalogError::NameExists { name: "ns".to_string() }));
    assert_eq!(again.unwrap_err().kind(), ErrorKind::AlreadyExists);

    // a soft-deleted namespace still holds its name
    namespace::soft_delete(&mut repos, "ns", Timestamp::new(7)).unwrap();
    assert_eq!(
        namespace::create(&mut repos, "ns", None, None),
        Err(CatalogError::NameExists { name: "ns".to_string() })
    );
    assert_eq!(namespace::list(&repos, SoftDeletedRows::AllRows).unwrap().len(), 1);
}

#[test]
fn namespace_soft_delete_and_lookup() {
    let mut repos = MemCatalog::new();
    let a = arbitrary_namespace(&mut repos, "a");
    let b = arbitrary_namespace(&mut repos, "b");

    namespace::soft_delete(&mut repos, "a", Timestamp::new(42)).unwrap();

    let live = namespace::list(&repos, SoftDeletedRows::ExcludeDeleted).unwrap();
    assert_eq!(live, vec![b.clone()]);
    let deleted = namespace::list(&repos, SoftDeletedRows::OnlyDeleted).unwrap();
    assert_eq!(deleted.len(), 1);
    assert_eq!(deleted[0].id, a.id);
    assert_eq!(deleted[0].deleted_at, Some(Timestamp::new(42)));
    assert_eq!(namespace::list(&repos, SoftDeletedRows::AllRows).unwrap().len(), 2);

    assert_eq!(namespace::get_by_id(&repos, a.id, SoftDeletedRows::ExcludeDeleted).unwrap(), None);
    assert_eq!(
        namespace::get_by_id(&repos, a.id, SoftDeletedRows::OnlyDeleted).unwrap().map(|n| n.id),
        Some(a.id)
    );
    assert_eq!(
        namespace::get_by_name(&repos, "b", SoftDeletedRows::ExcludeDeleted).unwrap(),
        Some(b)
    );
    assert_eq!(namespace::get_by_name(&repos, "c", SoftDeletedRows::AllRows).unwrap(), None);

    let missing = namespace::soft_delete(&mut repos, "c", Timestamp::new(43));
    assert_eq!(missing, Err(CatalogError::NamespaceNotFoundByName { name: "c".to_string() }));
    assert_eq!(missing.unwrap_err().kind(), ErrorKind::NotFound);
}

#[test]
fn namespace_updates_report_missing_names() {
    let mut repos = MemCatalog::new();
    arbitrary_namespace(&mut repos, "ns");

    assert_eq!(namespace::update_table_limit(&mut repos, "ns", 3).unwrap().max_tables, 3);
    assert_eq!(
        namespace::update_column_limit(&mut repos, "ns", 4).unwrap().max_columns_per_table,
        4
    );
    assert_eq!(
        namespace::update_retention_period(&mut repos, "ns", Some(9))
            .unwrap()
            .retention_period_ns,
        Some(9)
    );
    let stored = namespace::get_by_name(&repos, "ns", SoftDeletedRows::AllRows).unwrap().unwrap();
    assert_eq!(stored.max_tables, 3);
    assert_eq!(stored.max_columns_per_table, 4);
    assert_eq!(stored.retention_period_ns, Some(9));

    let not_found = CatalogError::NamespaceNotFoundByName { name: "nope".to_string() };
    assert_eq!(namespace::update_table_limit(&mut repos, "nope", 3), Err(not_found));
    assert_eq!(
        namespace::update_column_limit(&mut repos, "nope", 3),
        Err(CatalogError::NamespaceNotFoundByName { name: "nope".to_string() })
    );
    assert_eq!(
        namespace::update_retention_period(&mut repos, "nope", None),
        Err(CatalogError::NamespaceNotFoundByName { name: "nope".to_string() })
    );
}

#[test]
fn table_limit_is_enforced_and_nothing_is_persisted() {
    let mut repos = MemCatalog::new();
    let namespace = arbitrary_namespace(&mut repos, "ns");
    namespace::update_table_limit(&mut repos, "ns", 2).unwrap();

    arbitrary_table(&mut repos, "t1", &namespace);
    arbitrary_table(&mut repos, "t2", &namespace);
    let third = table::create(&mut repos, "t3", namespace.id);
    assert_eq!(
        third,
        Err(CatalogError::TableCreateLimitError {
            table_name: "t3".to_string(),
            namespace_id: namespace.id
        })
    );
    assert_eq!(third.unwrap_err().kind(), ErrorKind::LimitExceeded);
    let listed = table::list_by_namespace_id(&repos, namespace.id).unwrap();
    assert_eq!(listed.len(), 2);
    assert_eq!(listed[0].name, "t1");
    assert_eq!(listed[1].name, "t2");

    // at the limit the limit is reported, also for a name that is taken
    assert_eq!(
        table::create(&mut repos, "t1", namespace.id),
        Err(CatalogError::TableCreateLimitError {
            table_name: "t1".to_string(),
            namespace_id: namespace.id
        })
    );
    // a namespace that is missing yields no row either
    assert_eq!(
        table::create(&mut repos, "t", NamespaceId::new(99)),
        Err(CatalogError::TableCreateLimitError {
            table_name: "t".to_string(),
            namespace_id: NamespaceId::new(99)
        })
    );
}

#[test]
fn table_names_are_unique_within_a_namespace() {
    let mut repos = MemCatalog::new();
    let a = arbitrary_namespace(&mut repos, "a");
    let b = arbitrary_namespace(&mut repos, "b");
    let t = arbitrary_table(&mut repos, "t", &a);
    assert_eq!(
        table::create(&mut repos, "t", a.id),
        Err(CatalogError::TableNameExists { name: "t".to_string(), namespace_id: a.id })
    );
    let other = arbitrary_table(&mut repos, "t", &b);
    assert_ne!(t.id, other.id);

    assert_eq!(table::get_by_id(&repos, t.id).unwrap(), Some(t.clone()));
    assert_eq!(table::get_by_id(&repos, TableId::new(77)).unwrap(), None);
    assert_eq!(table::get_by_namespace_and_name(&repos, b.id, "t").unwrap(), Some(other.clone()));
    assert_eq!(table::get_by_namespace_and_name(&repos, b.id, "u").unwrap(), None);
    assert_eq!(table::list(&repos).unwrap(), vec![t, other]);
}

#[test]
fn column_create_or_get_is_idempotent_and_reports_type_conflicts() {
    let mut repos = MemCatalog::new();
    let namespace = arbitrary_namespace(&mut repos, "ns");
    let table_id = arbitrary_table(&mut repos, "t", &namespace).id;

    let first = iox_catalog::column::create_or_get(&mut repos, "c", table_id, ColumnType::I64).unwrap();
    let second = iox_catalog::column::create_or_get(&mut repos, "c", table_id, ColumnType::I64).unwrap();
    assert_eq!(first, second);

    let conflict = iox_catalog::column::create_or_get(&mut repos, "c", table_id, ColumnType::Tag);
    assert_eq!(
        conflict,
        Err(CatalogError::ColumnTypeMismatch {
            name: "c".to_string(),
            existing: ColumnType::I64,
            new: ColumnType::Tag
        })
    );
    assert_eq!(conflict.unwrap_err().kind(), ErrorKind::TypeMismatch);
    // the column keeps its type
    assert_eq!(iox_catalog::column::list_by_table_id(&repos, table_id).unwrap(), vec![first]);
}

#[test]
fn column_limit_is_enforced_also_for_a_column_that_exists() {
    let mut repos = MemCatalog::new();
    let namespace = arbitrary_namespace(&mut repos, "ns");
    let table_id = arbitrary_table(&mut repos, "t", &namespace).id;
    namespace::update_column_limit(&mut repos, "ns", 1).unwrap();

    iox_catalog::column::create_or_get(&mut repos, "a", table_id, ColumnType::I64).unwrap();
    let limit = CatalogError::ColumnCreateLimitError { column_name: "b".to_string(), table_id };
    assert_eq!(iox_catalog::column::create_or_get(&mut repos, "b", table_id, ColumnType::I64), Err(limit));
    // the table is full: the statement yields no row, also for the column that exists
    assert_eq!(
        iox_catalog::column::create_or_get(&mut repos, "a", table_id, ColumnType::I64),
        Err(CatalogError::ColumnCreateLimitError { column_name: "a".to_string(), table_id })
    );
    // a table that is missing yields no row either
    assert_eq!(
        iox_catalog::column::create_or_get(&mut repos, "a", TableId::new(50), ColumnType::I64),
        Err(CatalogError::ColumnCreateLimitError {
            column_name: "a".to_string(),
            table_id: TableId::new(50)
        })
    );
    assert_eq!(iox_catalog::column::list(&repos).unwrap().len(), 1);
}

#[test]
fn columns_are_listed_by_namespace() {
    let mut repos = MemCatalog::new();
    let a = arbitrary_namespace(&mut repos, "a");
    let b = arbitrary_namespace(&mut repos, "b");
    let ta = arbitrary_table(&mut repos, "t", &a).id;
    let tb = arbitrary_table(&mut repos, "t", &b).id;
    let ca = iox_catalog::column::create_or_get(&mut repos, "x", ta, ColumnType::I64).unwrap();
    let cb = iox_catalog::column::create_or_get(&mut repos, "x", tb, ColumnType::Bool).unwrap();
    assert_eq!(iox_catalog::column::list_by_namespace_id(&repos, a.id).unwrap(), vec![ca.clone()]);
    assert_eq!(iox_catalog::column::list_by_namespace_id(&repos, b.id).unwrap(), vec![cb.clone()]);
    assert_eq!(iox_catalog::column::list_by_namespace_id(&repos, NamespaceId::new(9)).unwrap(), vec![]);
    assert_eq!(iox_catalog::column::list(&repos).unwrap(), vec![ca, cb]);
}

fn batch_of(entries: &[(&str, ColumnType)]) -> ColumnBatch {
    let mut batch = ColumnBatch::new();
    for (name, column_type) in entries {
        batch.insert(name, *column_type);
    }
    batch
}

fn run_batches(
    calls: &[&[(&str, ColumnType)]],
) -> Result<Vec<iox_catalog::rows::Column>, CatalogError> {
    let mut repos = MemCatalog::new();
    let namespace = arbitrary_namespace(&mut repos, "ns4");
    let table_id = arbitrary_table(&mut repos, "table", &namespace).id;

    let mut got = Ok(vec![]);
    for call in calls {
        let insert = batch_of(call);
        got = iox_catalog::column::create_or_get_many_unchecked(&mut repos, table_id, &insert);

        // The returned columns MUST always match the requested
        // column values if successful.
        if let Ok(got) = &got {
            assert_eq!(insert.len(), got.len());
            for got in got {
                assert_eq!(table_id, got.table_id);
                let requested_column_type = insert
                    .get(got.name.as_str())
                    .expect("Should have gotten back a column that was inserted");
                assert_eq!(requested_column_type, got.column_type);
            }
        }
    }
    got
}

#[test]
fn test_column_create_or_get_many_unchecked_insert() {
    let got = run_batches(&[
        &[
            ("test1", ColumnType::I64),
            ("test2", ColumnType::U64),
            ("test3", ColumnType::F64),
            ("test4", ColumnType::Bool),
            ("test5", ColumnType::String),
            ("test6", ColumnType::Time),
            ("test7", ColumnType::Tag),
        ],
        &[("test8", ColumnType::String), ("test9", ColumnType::Bool)],
    ]);
    assert!(matches!(got, Ok(_)));
}

#[test]
fn test_column_create_or_get_many_unchecked_partial_upsert() {
    let got = run_batches(&[
        &[
            ("test1", ColumnType::I64),
            ("test2", ColumnType::U64),
            ("test3", ColumnType::F64),
            ("test4", ColumnType::Bool),
        ],
        &[
            ("test1", ColumnType::I64),
            ("test2", ColumnType::U64),
            ("test3", ColumnType::F64),
            ("test4", ColumnType::Bool),
            ("test5", ColumnType::String),
            ("test6", ColumnType::Time),
            ("test7", ColumnType::Tag),
            ("test8", ColumnType::String),
        ],
    ]);
    assert!(matches!(got, Ok(_)));
}

#[test]
fn test_column_create_or_get_many_unchecked_full_upsert() {
    let got = run_batches(&[
        &[
            ("test1", ColumnType::I64),
            ("test2", ColumnType::U64),
            ("test3", ColumnType::F64),
            ("test4", ColumnType::Bool),
        ],
        &[
            ("test1", ColumnType::I64),
            ("test2", ColumnType::U64),
            ("test3", ColumnType::F64),
            ("test4", ColumnType::Bool),
        ],
    ]);
    assert!(matches!(got, Ok(_)));
}

#[test]
fn test_column_create_or_get_many_unchecked_partial_type_conflict() {
    let got = run_batches(&[
        &[
            ("test1", ColumnType::String),
            ("test2", ColumnType::String),
            ("test3", ColumnType::String),
            ("test4", ColumnType::String),
        ],
        &[
            ("test1", ColumnType::String),
            ("test2", ColumnType::Bool), // This one differs
            ("test3", ColumnType::String),
            // 4 is missing.
            ("test5", ColumnType::String),
            ("test6", ColumnType::Time),
            ("test7", ColumnType::Tag),
            ("test8", ColumnType::String),
        ],
    ]);
    match got {
        Err(CatalogError::ColumnTypeMismatch { name, existing, new }) => {
            assert_eq!(name, "test2");
            assert_eq!(existing, ColumnType::String);
            assert_eq!(new, ColumnType::Bool);
        }
        other => panic!("expected a type mismatch, got {:?}", other),
    }
}

#[test]
fn batch_is_unchecked_ordered_by_name_and_needs_its_table() {
    let mut repos = MemCatalog::new();
    let namespace = arbitrary_namespace(&mut repos, "ns");
    let table_id = arbitrary_table(&mut repos, "t", &namespace).id;
    namespace::update_column_limit(&mut repos, "ns", 1).unwrap();

    // the limit of one column is not checked, and ids follow the order of the names
    let batch = batch_of(&[("zeta", ColumnType::Tag), ("alpha", ColumnType::I64), ("m", ColumnType::Time)]);
    let names: Vec<String> = batch.entries().iter().map(|e| e.name.clone()).collect();
    assert_eq!(names, vec!["alpha", "m", "zeta"]);
    let got = iox_catalog::column::create_or_get_many_unchecked(&mut repos, table_id, &batch).unwrap();
    let got: Vec<(i64, String)> = got.into_iter().map(|c| (c.id.get(), c.name)).collect();
    assert_eq!(
        got,
        vec![(1, "alpha".to_string()), (2, "m".to_string()), (3, "zeta".to_string())]
    );

    // a conflict is reported, and what the statement wrote stays written
    let batch = batch_of(&[("alpha", ColumnType::Bool), ("beta", ColumnType::Bool)]);
    assert_eq!(
        iox_catalog::column::create_or_get_many_unchecked(&mut repos, table_id, &batch),
        Err(CatalogError::ColumnTypeMismatch {
            name: "alpha".to_string(),
            existing: ColumnType::I64,
            new: ColumnType::Bool
        })
    );
    assert_eq!(iox_catalog::column::list_by_table_id(&repos, table_id).unwrap().len(), 4);

    // a missing table breaks the foreign key, unless the batch is empty
    assert_eq!(
        iox_catalog::column::create_or_get_many_unchecked(&mut repos, TableId::new(9), &batch),
        Err(CatalogError::ForeignKeyViolation)
    );
    assert_eq!(
        iox_catalog::column::create_or_get_many_unchecked(&mut repos, TableId::new(9), &ColumnBatch::new()),
        Ok(vec![])
    );
}

#[test]
fn batch_holds_one_type_per_name() {
    let mut batch = ColumnBatch::new();
    assert_eq!(batch.insert("b", ColumnType::I64), None);
    assert_eq!(batch.insert("a", ColumnType::Tag), None);
    assert_eq!(batch.insert("b", ColumnType::Bool), Some(ColumnType::I64));
    assert_eq!(batch.len(), 2);
    assert_eq!(batch.get("a"), Some(ColumnType::Tag));
    assert_eq!(batch.get("b"), Some(ColumnType::Bool));
    assert_eq!(batch.get("c"), None);
    let rows = batch.name_types();
    assert_eq!(rows.len(), 2);
    assert_eq!((rows[0].name.as_str(), rows[0].column_type), ("a", 7));
    assert_eq!((rows[1].name.as_str(), rows[1].column_type), ("b", 4));
}

#[test]
fn partition_needs_its_table() {
    let mut repos = MemCatalog::new();
    assert_eq!(
        partition::create_or_get(&mut repos, PartitionKey::new("k"), TableId::new(1)),
        Err(CatalogError::ForeignKeyViolation)
    );
    let namespace = arbitrary_namespace(&mut repos, "ns");
    let table_id = arbitrary_table(&mut repos, "t", &namespace).id;
    let created = partition::create_or_get(&mut repos, PartitionKey::new("k"), table_id).unwrap();
    assert_eq!(created.sort_key, Vec::<String>::new());
    assert_eq!(created.new_file_at, None);
    assert_eq!(partition::get_by_id(&repos, created.id).unwrap(), Some(created.clone()));
    assert_eq!(partition::get_by_id(&repos, PartitionId::new(5)).unwrap(), None);
    assert_eq!(partition::list_by_table_id(&repos, table_id).unwrap(), vec![created]);
    assert_eq!(partition::list_by_table_id(&repos, TableId::new(5)).unwrap(), vec![]);
}

#[test]
fn cas_sort_key_swaps_only_on_the_expected_value() {
    let mut repos = MemCatalog::new();
    let namespace = arbitrary_namespace(&mut repos, "ns");
    let table_id = arbitrary_table(&mut repos, "t", &namespace).id;
    let id = partition::create_or_get(&mut repos, PartitionKey::new("k"), table_id).unwrap().id;

    // no expectation stands for the empty sort key
    let swapped = partition::cas_sort_key(&mut repos, id, None, &["a"]).unwrap();
    assert_eq!(swapped.sort_key, vec!["a"]);

    let swapped =
        partition::cas_sort_key(&mut repos, id, Some(vec!["a".to_string()]), &["a", "b"]).unwrap();
    assert_eq!(swapped.sort_key, vec!["a", "b"]);
    assert_eq!(partition::get_by_id(&repos, id).unwrap().unwrap().sort_key, vec!["a", "b"]);

    // a stale expectation reports the current value
    let stale = partition::cas_sort_key(&mut repos, id, Some(vec!["a".to_string()]), &["a", "c"]);
    assert_eq!(
        stale,
        Err(CasFailure::ValueMismatch(vec!["a".to_string(), "b".to_string()]))
    );
    assert_eq!(partition::get_by_id(&repos, id).unwrap().unwrap().sort_key, vec!["a", "b"]);

    // the order of the names counts
    let reordered = partition::cas_sort_key(
        &mut repos,
        id,
        Some(vec!["b".to_string(), "a".to_string()]),
        &["x"],
    );
    assert_eq!(
        reordered,
        Err(CasFailure::ValueMismatch(vec!["a".to_string(), "b".to_string()]))
    );

    // nothing but the swap changes a sort key
    parquet_file::create(
        &mut repos,
        file_params(namespace.id, table_id, id, ObjectStoreId::new(1), 1, 5),
    )
    .unwrap();
    partition::create_or_get(&mut repos, PartitionKey::new("k"), table_id).unwrap();
    partition::create_or_get(&mut repos, PartitionKey::new("l"), table_id).unwrap();
    let stored = partition::get_by_id(&repos, id).unwrap().unwrap();
    assert_eq!(stored.sort_key, vec!["a", "b"]);
    assert_eq!(stored.new_file_at, Some(Timestamp::new(1_000)));

    let missing = partition::cas_sort_key(&mut repos, PartitionId::new(9), None, &["a"]);
    assert_eq!(
        missing,
        Err(CasFailure::QueryError(CatalogError::PartitionNotFound { id: PartitionId::new(9) }))
    );
}

#[test]
fn skipped_compactions_are_kept_one_per_partition() {
    let mut repos = MemCatalog::new();
    let namespace = arbitrary_namespace(&mut repos, "ns");
    let table_id = arbitrary_table(&mut repos, "t", &namespace).id;
    let first = partition::create_or_get(&mut repos, PartitionKey::new("1"), table_id).unwrap().id;
    let second = partition::create_or_get(&mut repos, PartitionKey::new("2"), table_id).unwrap().id;

    partition::record_skipped_compaction(&mut repos, first, "I am le tired", 1, 2, 4, 10, 20, Timestamp::new(5))
        .unwrap();
    partition::record_skipped_compaction(&mut repos, second, "too big", 3, 4, 5, 6, 7, Timestamp::new(6))
        .unwrap();
    // recording again overwrites in place
    partition::record_skipped_compaction(&mut repos, first, "I'm on fire", 11, 12, 24, 110, 120, Timestamp::new(9))
        .unwrap();

    let all = partition::list_skipped_compactions(&repos).unwrap();
    assert_eq!(all.len(), 2);
    assert_eq!(all[0].partition_id, first);
    assert_eq!(all[0].reason, "I'm on fire");
    assert_eq!(all[0].num_files, 11);
    assert_eq!(all[0].limit_num_files, 12);
    assert_eq!(all[0].limit_num_files_first_in_partition, 24);
    assert_eq!(all[0].estimated_bytes, 110);
    assert_eq!(all[0].limit_bytes, 120);
    assert_eq!(all[0].skipped_at, Timestamp::new(9));
    assert_eq!(all[1].partition_id, second);

    assert_eq!(
        partition::get_in_skipped_compaction(&repos, second).unwrap().map(|s| s.reason),
        Some("too big".to_string())
    );
    assert_eq!(partition::get_in_skipped_compaction(&repos, PartitionId::new(9)).unwrap(), None);

    let deleted = partition::delete_skipped_compactions(&mut repos, first).unwrap();
    assert_eq!(deleted.map(|s| s.reason), Some("I'm on fire".to_string()));
    assert_eq!(partition::delete_skipped_compactions(&mut repos, first).unwrap(), None);
    assert_eq!(partition::list_skipped_compactions(&repos).unwrap().len(), 1);

    assert_eq!(
        partition::record_skipped_compaction(
            &mut repos,
            PartitionId::new(9),
            "r",
            1,
            1,
            1,
            1,
            1,
            Timestamp::new(1)
        ),
        Err(CatalogError::CouldNotRecordSkippedCompaction { partition_id: PartitionId::new(9) })
    );
}

#[test]
fn partitions_are_discovered_by_age_and_by_new_files() {
    let mut repos = MemCatalog::new();
    let namespace = arbitrary_namespace(&mut repos, "ns");
    let table_id = arbitrary_table(&mut repos, "t", &namespace).id;
    let first = partition::create_or_get(&mut repos, PartitionKey::new("1"), table_id).unwrap().id;
    let second = partition::create_or_get(&mut repos, PartitionKey::new("2"), table_id).unwrap().id;
    let third = partition::create_or_get(&mut repos, PartitionKey::new("3"), table_id).unwrap().id;

    let recent: Vec<PartitionId> =
        partition::most_recent_n(&repos, 2).unwrap().into_iter().map(|p| p.id).collect();
    assert_eq!(recent, vec![third, second]);
    assert_eq!(partition::most_recent_n(&repos, 0).unwrap(), vec![]);
    assert_eq!(partition::most_recent_n(&repos, 10).unwrap().len(), 3);
    assert_eq!(partition::list_ids(&repos).unwrap(), vec![first, second, third]);

    // no file has arrived yet
    assert_eq!(
        partition::partitions_new_file_between(&repos, Timestamp::new(0), None).unwrap(),
        vec![]
    );
    let mut params = file_params(namespace.id, table_id, first, ObjectStoreId::new(1), 1, 5);
    params.created_at = Timestamp::new(100);
    parquet_file::create(&mut repos, params).unwrap();
    let mut params = file_params(namespace.id, table_id, third, ObjectStoreId::new(2), 1, 5);
    params.created_at = Timestamp::new(200);
    parquet_file::create(&mut repos, params).unwrap();
    assert_eq!(
        partition::get_by_id(&repos, first).unwrap().unwrap().new_file_at,
        Some(Timestamp::new(100))
    );

    assert_eq!(
        partition::partitions_new_file_between(&repos, Timestamp::new(99), None).unwrap(),
        vec![first, third]
    );
    // both bounds are exclusive
    assert_eq!(
        partition::partitions_new_file_between(&repos, Timestamp::new(100), None).unwrap(),
        vec![third]
    );
    assert_eq!(
        partition::partitions_new_file_between(
            &repos,
            Timestamp::new(99),
            Some(Timestamp::new(200))
        )
        .unwrap(),
        vec![first]
    );
    assert_eq!(
        partition::new_file_between_query(None),
        "SELECT p.id as partition_id FROM partition p WHERE p.new_file_at > $1"
    );
    assert_eq!(
        partition::new_file_between_query(Some(Timestamp::new(1))),
        "SELECT p.id as partition_id FROM partition p WHERE p.new_file_at > $1 AND p.new_file_at < $2"
    );
}

#[test]
fn test_catalog() {
    let mut repos = MemCatalog::new();
    assert_eq!(namespace::list(&repos, SoftDeletedRows::AllRows).unwrap(), vec![]);

    // schema
    let namespace = arbitrary_namespace(&mut repos, "company_db");
    let table = arbitrary_table(&mut repos, "cpu", &namespace);
    let time =
        iox_catalog::column::create_or_get(&mut repos, "time", table.id, ColumnType::Time).unwrap();
    let mut batch = ColumnBatch::new();
    batch.insert("host", ColumnType::Tag);
    batch.insert("usage", ColumnType::F64);
    batch.insert("time", ColumnType::Time);
    let columns =
        iox_catalog::column::create_or_get_many_unchecked(&mut repos, table.id, &batch).unwrap();
    assert_eq!(columns.len(), 3);
    assert_eq!(columns[1], time);
    assert_eq!(iox_catalog::column::list_by_table_id(&repos, table.id).unwrap().len(), 3);

    // partitions and their sort key
    let partition =
        partition::create_or_get(&mut repos, PartitionKey::new("2023-01-01"), table.id).unwrap();
    let partition = partition::cas_sort_key(&mut repos, partition.id, None, &["host", "time"])
        .expect("the sort key is empty");
    assert_eq!(partition.sort_key, vec!["host", "time"]);

    // files come, are compacted, expire and are purged
    let size_of = |repos: &MemCatalog| total_file_size_bytes(repos, namespace.id);
    let mut created = vec![];
    for (content, size) in [(1u128, 100i64), (2, 200), (3, 300)] {
        let params =
            file_params(namespace.id, table.id, partition.id, ObjectStoreId::new(content), size, 50);
        created.push(parquet_file::create(&mut repos, params).unwrap().id);
    }
    assert_eq!(size_of(&repos), 600);
    let merged =
        file_params(namespace.id, table.id, partition.id, ObjectStoreId::new(4), 250, 50);
    let new_ids = parquet_file::create_upgrade_delete(
        &mut repos,
        &created[0..2],
        &created[2..3],
        &[merged],
        CompactionLevel::Final,
        Timestamp::new(2_000),
    )
    .unwrap();
    assert_eq!(new_ids, vec![ParquetFileId::new(4)]);
    assert_eq!(size_of(&repos), 550);
    let live: Vec<ParquetFileId> =
        parquet_file::list_by_partition_not_to_delete(&repos, partition.id)
            .unwrap()
            .into_iter()
            .map(|f| f.id)
            .collect();
    assert_eq!(live, vec![created[2], new_ids[0]]);

    namespace::update_retention_period(&mut repos, "company_db", Some(10)).unwrap();
    let expired = parquet_file::flag_for_delete_by_retention(&mut repos, Timestamp::new(3_000));
    assert_eq!(expired.unwrap(), vec![created[2], new_ids[0]]);
    assert_eq!(size_of(&repos), 0);
    assert_eq!(parquet_file::list_all(&repos).unwrap().len(), 4);

    let purged = parquet_file::delete_old_ids_only(&mut repos, Timestamp::new(2_500)).unwrap();
    assert_eq!(purged, vec![created[0], created[1]]);
    let purged = parquet_file::delete_old_ids_only(&mut repos, Timestamp::new(3_001)).unwrap();
    assert_eq!(purged, vec![created[2], new_ids[0]]);
    assert_eq!(parquet_file::list_all(&repos).unwrap(), vec![]);
    assert_eq!(size_of(&repos), 0);

    // the schema stays when a namespace is deleted: the delete is soft
    namespace::soft_delete(&mut repos, "company_db", Timestamp::new(4_000)).unwrap();
    assert_eq!(namespace::list(&repos, SoftDeletedRows::ExcludeDeleted).unwrap(), vec![]);
    assert_eq!(table::list(&repos).unwrap(), vec![table]);
    assert_eq!(partition::list_ids(&repos).unwrap(), vec![partition.id]);
}
