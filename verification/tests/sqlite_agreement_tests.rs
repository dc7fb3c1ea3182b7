//! Runs the statements of the repositories against SQLite and against the catalog in
//! memory, and holds the answers of the two against each other.

use iox_catalog::batch::ColumnBatch;
use iox_catalog::error::{CasFailure, CatalogError};
use iox_catalog::files::{ColumnSet, ParquetFile, ParquetFileParams};
use iox_catalog::mem::MemCatalog;
use iox_catalog::model::{
    ColumnId, ColumnType, CompactionLevel, NamespaceId, ObjectStoreId, ParquetFileId,
    PartitionId, TableId, Timestamp, DEFAULT_MAX_TABLES, MAX_PARQUET_FILES_SELECTED_ONCE,
};
use iox_catalog::outcome::{list_result, lookup_result};
use iox_catalog::pods::{ParquetFilePod, PartitionPod};
use iox_catalog::rows::{
    Column, Namespace, NamespacePartitionTemplateOverride, Partition, PartitionKey, Table,
};
use iox_catalog::store_error::classify_outcome;
use iox_catalog::transition::{Event, Step, Transition};
use iox_catalog::{namespace, parquet_file, partition, sql, table};
use sqlx::sqlite::{SqlitePool, SqlitePoolOptions, SqliteRow};
use sqlx::Row;

const SCHEMA: &[&str] = &[
    "CREATE TABLE topic (id INTEGER PRIMARY KEY AUTOINCREMENT, name VARCHAR NOT NULL, UNIQUE (name));",
    "CREATE TABLE query_pool (id INTEGER PRIMARY KEY AUTOINCREMENT, name VARCHAR NOT NULL, UNIQUE (name));",
    "CREATE TABLE shard (id INTEGER PRIMARY KEY AUTOINCREMENT, topic_id numeric(19) NOT NULL REFERENCES topic (id), shard_index integer NOT NULL, min_unpersisted_sequence_number numeric(19), UNIQUE (topic_id, shard_index));",
    "CREATE TABLE namespace (id INTEGER PRIMARY KEY AUTOINCREMENT, name VARCHAR NOT NULL, retention_period_ns numeric(19) DEFAULT NULL, topic_id numeric(19) NOT NULL REFERENCES topic (id), query_pool_id numeric(19) NOT NULL REFERENCES query_pool (id), max_tables INT DEFAULT 10000 NOT NULL, max_columns_per_table INT DEFAULT 200 NOT NULL, deleted_at numeric(19) DEFAULT NULL, partition_template TEXT, UNIQUE (name));",
    "CREATE TABLE table_name (id INTEGER PRIMARY KEY AUTOINCREMENT, namespace_id numeric(19) NOT NULL REFERENCES namespace (id) ON DELETE CASCADE, name VARCHAR NOT NULL, UNIQUE (namespace_id, name));",
    "CREATE TABLE column_name (id INTEGER PRIMARY KEY AUTOINCREMENT, table_id numeric(19) NOT NULL REFERENCES table_name (id) ON DELETE CASCADE, name VARCHAR NOT NULL, column_type smallint NOT NULL, UNIQUE (table_id, name));",
    "CREATE TABLE partition (id INTEGER PRIMARY KEY AUTOINCREMENT, shard_id numeric(19) NOT NULL REFERENCES shard (id), table_id numeric(19) NOT NULL REFERENCES table_name (id) ON DELETE CASCADE, partition_key VARCHAR NOT NULL, sort_key VARCHAR NOT NULL, new_file_at numeric(19), UNIQUE (table_id, partition_key));",
    "CREATE TABLE parquet_file (id INTEGER PRIMARY KEY AUTOINCREMENT, shard_id numeric(19) NOT NULL REFERENCES shard (id), table_id numeric(19) NOT NULL REFERENCES table_name (id), partition_id numeric(19) NOT NULL REFERENCES partition (id), object_store_id uuid NOT NULL, min_time numeric(19), max_time numeric(19), to_delete numeric(19), row_count numeric(19) DEFAULT 0 NOT NULL, file_size_bytes numeric(19) DEFAULT 0 NOT NULL, compaction_level smallint DEFAULT 0 NOT NULL, created_at numeric(19), namespace_id numeric(19) NOT NULL REFERENCES namespace (id) ON DELETE CASCADE, column_set TEXT NOT NULL, max_l0_created_at numeric(19) DEFAULT 0 NOT NULL, UNIQUE (object_store_id));",
    "CREATE TABLE skipped_compactions (partition_id numeric(19) NOT NULL PRIMARY KEY REFERENCES partition (id) ON DELETE CASCADE, reason TEXT NOT NULL, skipped_at numeric(19) NOT NULL, num_files numeric(19), limit_num_files numeric(19), limit_num_files_first_in_partition numeric(19), estimated_bytes numeric(19), limit_bytes numeric(19));",
    "CREATE TABLE billing_summary (namespace_id integer NOT NULL PRIMARY KEY REFERENCES namespace (id) ON DELETE CASCADE, total_file_size_bytes numeric(19) NOT NULL);",
    "CREATE TRIGGER update_partition AFTER INSERT ON parquet_file FOR EACH ROW BEGIN UPDATE partition SET new_file_at = NEW.created_at WHERE id = NEW.partition_id; END;",
    "CREATE TRIGGER update_billing AFTER INSERT ON parquet_file FOR EACH ROW BEGIN INSERT INTO billing_summary (namespace_id, total_file_size_bytes) VALUES (NEW.namespace_id, NEW.file_size_bytes) ON CONFLICT (namespace_id) DO UPDATE SET total_file_size_bytes = billing_summary.total_file_size_bytes + NEW.file_size_bytes WHERE billing_summary.namespace_id = NEW.namespace_id; END;",
    "CREATE TRIGGER decrement_summary AFTER UPDATE ON parquet_file FOR EACH ROW WHEN OLD.to_delete IS NULL AND NEW.to_delete IS NOT NULL BEGIN UPDATE billing_summary SET total_file_size_bytes = billing_summary.total_file_size_bytes - OLD.file_size_bytes WHERE billing_summary.namespace_id = OLD.namespace_id; END;",
];

fn run<F: std::future::Future>(future: F) -> F::Output {
    tokio::runtime::Builder::new_current_thread()
        .enable_all()
        .build()
        .expect("runtime should start")
        .block_on(future)
}

async fn open_store() -> SqlitePool {
    let pool = SqlitePoolOptions::new()
        .max_connections(1)
        .connect("sqlite::memory:")
        .await
        .expect("store should open");
    for statement in SCHEMA {
        sqlx::query(statement).execute(&pool).await.expect("schema should be accepted");
    }
    sqlx::query(sql::SETUP_TOPIC).bind(sql::SHARED_TOPIC_NAME).execute(&pool).await.unwrap();
    sqlx::query(sql::SETUP_SHARD)
        .bind(sql::TRANSITION_SHARD_ID)
        .bind(sql::SHARED_TOPIC_ID)
        .bind(sql::TRANSITION_SHARD_INDEX)
        .execute(&pool)
        .await
        .unwrap();
    sqlx::query(sql::SETUP_QUERY_POOL).bind(sql::SHARED_QUERY_POOL).execute(&pool).await.unwrap();
    pool
}

fn namespace_of(row: SqliteRow) -> Namespace {
    Namespace {
        id: NamespaceId::new(row.get("id")),
        name: row.get("name"),
        retention_period_ns: row.get("retention_period_ns"),
        max_tables: row.get("max_tables"),
        max_columns_per_table: row.get("max_columns_per_table"),
        deleted_at: row.get::<Option<i64>, _>("deleted_at").map(Timestamp::new),
        partition_template: NamespacePartitionTemplateOverride(row.get("partition_template")),
    }
}

fn table_of(row: SqliteRow) -> Table {
    Table {
        id: TableId::new(row.get("id")),
        namespace_id: NamespaceId::new(row.get("namespace_id")),
        name: row.get("name"),
    }
}

fn column_of(row: SqliteRow) -> Column {
    Column {
        id: ColumnId::new(row.get("id")),
        table_id: TableId::new(row.get("table_id")),
        name: row.get("name"),
        column_type: ColumnType::from_code(row.get("column_type")).expect("a known type"),
    }
}

fn list_of_text(text: &str) -> Vec<String> {
    let inner = text.trim().trim_start_matches('[').trim_end_matches(']');
    if inner.trim().is_empty() {
        return vec![];
    }
    inner.split(',').map(|s| s.trim().trim_matches('"').to_string()).collect()
}

fn text_of_list(names: &[String]) -> String {
    let quoted: Vec<String> = names.iter().map(|n| format!("\"{}\"", n)).collect();
    format!("[{}]", quoted.join(","))
}

fn partition_of(row: SqliteRow) -> Partition {
    Partition::from_pod(PartitionPod {
        id: PartitionId::new(row.get("id")),
        table_id: TableId::new(row.get("table_id")),
        partition_key: PartitionKey::new(row.get::<String, _>("partition_key").as_str()),
        sort_key: list_of_text(row.get::<String, _>("sort_key").as_str()),
        new_file_at: row.get::<Option<i64>, _>("new_file_at").map(Timestamp::new),
    })
}

fn file_of(row: SqliteRow) -> ParquetFile {
    let numbers: Vec<i64> = list_of_text(row.get::<String, _>("column_set").as_str())
        .iter()
        .map(|n| n.parse().expect("a number"))
        .collect();
    ParquetFile::from_pod(ParquetFilePod {
        id: ParquetFileId::new(row.get("id")),
        namespace_id: NamespaceId::new(row.get("namespace_id")),
        table_id: TableId::new(row.get("table_id")),
        partition_id: PartitionId::new(row.get("partition_id")),
        object_store_id: ObjectStoreId::new(row.get::<uuid::Uuid, _>("object_store_id").as_u128()),
        min_time: Timestamp::new(row.get("min_time")),
        max_time: Timestamp::new(row.get("max_time")),
        to_delete: row.get::<Option<i64>, _>("to_delete").map(Timestamp::new),
        file_size_bytes: row.get("file_size_bytes"),
        row_count: row.get("row_count"),
        compaction_level: CompactionLevel::from_rank(row.get("compaction_level"))
            .expect("a known level"),
        created_at: Timestamp::new(row.get("created_at")),
        column_set: numbers,
        max_l0_created_at: Timestamp::new(row.get("max_l0_created_at")),
    })
}

async fn sql_namespace_create(
    pool: &SqlitePool,
    name: &str,
    retention: Option<i64>,
) -> Result<Namespace, CatalogError> {
    let outcome = sqlx::query(sql::NAMESPACE_CREATE)
        .bind(name)
        .bind(sql::SHARED_TOPIC_ID)
        .bind(sql::SHARED_QUERY_POOL_ID)
        .bind(retention)
        .bind(DEFAULT_MAX_TABLES)
        .bind(None::<String>)
        .fetch_one(pool)
        .await
        .map(namespace_of);
    namespace::create_result(classify_outcome(outcome), name)
}

async fn sql_namespace_update(
    pool: &SqlitePool,
    statement: &str,
    name: &str,
    value: Option<i64>,
) -> Result<Namespace, CatalogError> {
    let outcome =
        sqlx::query(statement).bind(value).bind(name).fetch_one(pool).await.map(namespace_of);
    namespace::update_result(classify_outcome(outcome), name)
}

async fn sql_namespace_soft_delete(
    pool: &SqlitePool,
    name: &str,
    now: Timestamp,
) -> Result<(), CatalogError> {
    let outcome = sqlx::query(sql::NAMESPACE_SOFT_DELETE)
        .bind(now.get())
        .bind(name)
        .execute(pool)
        .await
        .map(|done| done.rows_affected());
    namespace::soft_delete_result(classify_outcome(outcome), name)
}

async fn sql_namespace_list(pool: &SqlitePool) -> Vec<Namespace> {
    let text = format!("{}{};", sql::NAMESPACE_LIST_WHERE, "1=1");
    let outcome = sqlx::query(text.as_str())
        .fetch_all(pool)
        .await
        .map(|rows| rows.into_iter().map(namespace_of).collect::<Vec<_>>());
    list_result(classify_outcome(outcome)).unwrap()
}

async fn sql_table_create(
    pool: &SqlitePool,
    name: &str,
    namespace_id: NamespaceId,
) -> Result<Table, CatalogError> {
    let outcome = sqlx::query(sql::TABLE_CREATE)
        .bind(name)
        .bind(namespace_id.get())
        .fetch_one(pool)
        .await
        .map(table_of);
    table::create_result(classify_outcome(outcome), name, namespace_id)
}

async fn sql_table_list(pool: &SqlitePool) -> Vec<Table> {
    let outcome = sqlx::query(sql::TABLE_LIST)
        .fetch_all(pool)
        .await
        .map(|rows| rows.into_iter().map(table_of).collect::<Vec<_>>());
    list_result(classify_outcome(outcome)).unwrap()
}

async fn sql_column_create_or_get(
    pool: &SqlitePool,
    name: &str,
    table_id: TableId,
    column_type: ColumnType,
) -> Result<Column, CatalogError> {
    let outcome = sqlx::query(sql::COLUMN_CREATE_OR_GET)
        .bind(name)
        .bind(table_id.get())
        .bind(column_type.code())
        .fetch_one(pool)
        .await
        .map(column_of);
    iox_catalog::column::create_or_get_result(classify_outcome(outcome), name, table_id, column_type)
}

async fn sql_column_many(
    pool: &SqlitePool,
    table_id: TableId,
    batch: &ColumnBatch,
) -> Result<Vec<Column>, CatalogError> {
    let objects: Vec<String> = batch
        .name_types()
        .iter()
        .map(|e| format!("{{\"name\":\"{}\",\"column_type\":{}}}", e.name, e.column_type))
        .collect();
    let text = format!("[{}]", objects.join(","));
    let outcome = sqlx::query(sql::COLUMN_CREATE_OR_GET_MANY)
        .bind(table_id.get())
        .bind(text)
        .fetch_all(pool)
        .await
        .map(|rows| rows.into_iter().map(column_of).collect::<Vec<_>>());
    let outcome = classify_outcome(outcome);
    if let Ok(rows) = &outcome {
        assert!(iox_catalog::column::answers_batch(rows, batch));
    }
    iox_catalog::column::many_result(outcome, batch)
}

async fn sql_column_list(pool: &SqlitePool) -> Vec<Column> {
    let outcome = sqlx::query(sql::COLUMN_LIST)
        .fetch_all(pool)
        .await
        .map(|rows| rows.into_iter().map(column_of).collect::<Vec<_>>());
    list_result(classify_outcome(outcome)).unwrap()
}

async fn sql_partition_create_or_get(
    pool: &SqlitePool,
    key: &str,
    table_id: TableId,
) -> Result<Partition, CatalogError> {
    let outcome = sqlx::query(sql::PARTITION_CREATE_OR_GET)
        .bind(key)
        .bind(sql::TRANSITION_SHARD_ID)
        .bind(table_id.get())
        .fetch_one(pool)
        .await
        .map(partition_of);
    partition::create_or_get_result(classify_outcome(outcome))
}

async fn sql_partition_get_by_id(
    pool: &SqlitePool,
    id: PartitionId,
) -> Result<Option<Partition>, CatalogError> {
    let outcome = sqlx::query(sql::PARTITION_GET_BY_ID)
        .bind(id.get())
        .fetch_one(pool)
        .await
        .map(partition_of);
    lookup_result(classify_outcome(outcome))
}

async fn sql_cas_sort_key(
    pool: &SqlitePool,
    id: PartitionId,
    old_sort_key: Option<Vec<String>>,
    new_sort_key: &[&str],
) -> Result<Partition, CasFailure<Vec<String>>> {
    let old_sort_key = old_sort_key.unwrap_or_default();
    let outcome = sqlx::query(sql::PARTITION_CAS_SORT_KEY)
        .bind(text_of_list(&partition::sort_key_of(new_sort_key)))
        .bind(id.get())
        .bind(text_of_list(&old_sort_key))
        .fetch_one(pool)
        .await
        .map(partition_of);
    match partition::cas_update_result(classify_outcome(outcome)) {
        Some(answer) => answer,
        None => Err(partition::cas_read_result(sql_partition_get_by_id(pool, id).await, id)),
    }
}

async fn sql_partitions_new_file_between(
    pool: &SqlitePool,
    minimum_time: Timestamp,
    maximum_time: Option<Timestamp>,
) -> Vec<PartitionId> {
    let outcome = sqlx::query(partition::new_file_between_query(maximum_time))
        .bind(minimum_time.get())
        .bind(maximum_time.map(|t| t.get()))
        .fetch_all(pool)
        .await
        .map(|rows| {
            rows.into_iter()
                .map(|row| PartitionId::new(row.get("partition_id")))
                .collect::<Vec<_>>()
        });
    list_result(classify_outcome(outcome)).unwrap()
}

async fn sql_file_create(
    pool: &SqlitePool,
    params: ParquetFileParams,
) -> Result<ParquetFile, CatalogError> {
    let columns: Vec<String> =
        params.column_set.to_numbers().iter().map(|n| n.to_string()).collect();
    let outcome = sqlx::query(sql::PARQUET_FILE_CREATE)
        .bind(sql::TRANSITION_SHARD_ID)
        .bind(params.table_id.get())
        .bind(params.partition_id.get())
        .bind(uuid::Uuid::from_u128(params.object_store_id.get()))
        .bind(params.min_time.get())
        .bind(params.max_time.get())
        .bind(params.file_size_bytes)
        .bind(params.row_count)
        .bind(params.compaction_level.rank())
        .bind(params.created_at.get())
        .bind(params.namespace_id.get())
        .bind(format!("[{}]", columns.join(",")))
        .bind(params.max_l0_created_at.get())
        .fetch_one(pool)
        .await
        .map(file_of);
    parquet_file::create_result(classify_outcome(outcome), params.object_store_id)
}

async fn sql_file_list_all(pool: &SqlitePool) -> Vec<ParquetFile> {
    let outcome = sqlx::query(sql::PARQUET_FILE_LIST_ALL)
        .fetch_all(pool)
        .await
        .map(|rows| rows.into_iter().map(file_of).collect::<Vec<_>>());
    list_result(classify_outcome(outcome)).unwrap()
}

async fn sql_file_flag(pool: &SqlitePool, id: ParquetFileId, now: Timestamp) -> Result<u64, CatalogError> {
    let outcome = sqlx::query(sql::PARQUET_FILE_FLAG_FOR_DELETE)
        .bind(now.get())
        .bind(id.get())
        .execute(pool)
        .await
        .map(|done| done.rows_affected());
    let outcome = classify_outcome(outcome);
    let touched = *outcome.as_ref().unwrap_or(&0);
    parquet_file::flag_for_delete_result(outcome).map(|_| touched)
}

async fn sql_file_ids(pool: &SqlitePool, statement: &str, time: Timestamp) -> Vec<ParquetFileId> {
    let outcome = sqlx::query(statement)
        .bind(time.get())
        .bind(MAX_PARQUET_FILES_SELECTED_ONCE)
        .fetch_all(pool)
        .await
        .map(|rows| {
            rows.into_iter().map(|row| ParquetFileId::new(row.get("id"))).collect::<Vec<_>>()
        });
    let mut ids = list_result(classify_outcome(outcome)).unwrap();
    ids.sort();
    ids
}

async fn sql_update_compaction_level(
    pool: &SqlitePool,
    ids: &[ParquetFileId],
    level: CompactionLevel,
) -> Vec<ParquetFileId> {
    let numbers: Vec<String> = ids.iter().map(|id| id.get().to_string()).collect();
    let outcome = sqlx::query(sql::PARQUET_FILE_UPDATE_COMPACTION_LEVEL)
        .bind(level.rank())
        .bind(format!("[{}]", numbers.join(",")))
        .fetch_all(pool)
        .await
        .map(|rows| {
            rows.into_iter().map(|row| ParquetFileId::new(row.get("id"))).collect::<Vec<_>>()
        });
    let mut ids = list_result(classify_outcome(outcome)).unwrap();
    ids.sort();
    ids
}

async fn sql_total_size(pool: &SqlitePool) -> i64 {
    sqlx::query(sql::BILLING_SUMMARY_TOTAL).fetch_one(pool).await.unwrap().get(0)
}

fn params_for(
    namespace_id: NamespaceId,
    table_id: TableId,
    partition_id: PartitionId,
    content: u128,
    size: i64,
    max_time: i64,
    created_at: i64,
) -> ParquetFileParams {
    ParquetFileParams {
        namespace_id,
        table_id,
        partition_id,
        object_store_id: ObjectStoreId::new(content),
        min_time: Timestamp::new(1),
        max_time: Timestamp::new(max_time),
        file_size_bytes: size,
        row_count: 4,
        compaction_level: CompactionLevel::Initial,
        created_at: Timestamp::new(created_at),
        column_set: ColumnSet::new(vec![ColumnId::new(2), ColumnId::new(1)]),
        max_l0_created_at: Timestamp::new(created_at),
    }
}

/// A column without its id. The store takes an id for every upsert, also for one that
/// finds its row, so that the ids of the two catalogs drift apart; what they identify
/// does not.
fn column_shape(c: &Column) -> (TableId, String, ColumnType) {
    (c.table_id, c.name.clone(), c.column_type)
}

fn column_shapes(rows: &[Column]) -> Vec<(TableId, String, ColumnType)> {
    assert!(rows.windows(2).all(|w| w[0].id < w[1].id || w[0].name < w[1].name));
    rows.iter().map(column_shape).collect()
}

/// A partition without its id, for the same reason.
fn partition_shape(p: &Partition) -> (TableId, String, Vec<String>, Option<Timestamp>) {
    (p.table_id, p.partition_key.as_str().to_string(), p.sort_key.clone(), p.new_file_at)
}

/// Whether the failure of the store is the failure of the catalog in memory. A broken
/// foreign key that SQLite finds at the end of a statement which yields rows reaches
/// the driver without its code, so that it is reported as a failure of the store.
fn same_failure(store: &CatalogError, memory: &CatalogError) -> bool {
    store == memory
        || (*store == CatalogError::SqlxError && *memory == CatalogError::ForeignKeyViolation)
}

fn agree<T, S: PartialEq + std::fmt::Debug>(
    store: Result<T, CatalogError>,
    memory: Result<T, CatalogError>,
    shape: impl Fn(&T) -> S,
    what: &str,
) {
    match (&store, &memory) {
        (Ok(a), Ok(b)) => assert_eq!(shape(a), shape(b), "{}", what),
        (Err(a), Err(b)) => assert!(same_failure(a, b), "{}: {:?} and {:?}", what, a, b),
        (a, b) => panic!(
            "{}: the store says {:?}, the memory {:?}",
            what,
            a.as_ref().map(&shape),
            b.as_ref().map(&shape)
        ),
    }
}

#[test]
fn namespaces_agree_with_sqlite() {
    run(async {
        let pool = open_store().await;
        let mut repos = MemCatalog::new();

        assert_eq!(
            sql_namespace_create(&pool, "a", Some(5)).await,
            namespace::create(&mut repos, "a", None, Some(5))
        );
        assert_eq!(
            sql_namespace_create(&pool, "b", None).await,
            namespace::create(&mut repos, "b", None, None)
        );
        // a name that is taken
        assert_eq!(
            sql_namespace_create(&pool, "a", None).await,
            namespace::create(&mut repos, "a", None, None)
        );
        // the failed insert takes no id
        assert_eq!(
            sql_namespace_create(&pool, "c", None).await,
            namespace::create(&mut repos, "c", None, None)
        );

        assert_eq!(
            sql_namespace_update(&pool, sql::NAMESPACE_UPDATE_TABLE_LIMIT, "a", Some(2)).await,
            namespace::update_table_limit(&mut repos, "a", 2)
        );
        assert_eq!(
            sql_namespace_update(&pool, sql::NAMESPACE_UPDATE_COLUMN_LIMIT, "b", Some(3)).await,
            namespace::update_column_limit(&mut repos, "b", 3)
        );
        assert_eq!(
            sql_namespace_update(&pool, sql::NAMESPACE_UPDATE_RETENTION, "b", None).await,
            namespace::update_retention_period(&mut repos, "b", None)
        );
        assert_eq!(
            sql_namespace_update(&pool, sql::NAMESPACE_UPDATE_RETENTION, "nope", Some(1)).await,
            namespace::update_retention_period(&mut repos, "nope", Some(1))
        );
        assert_eq!(
            sql_namespace_soft_delete(&pool, "a", Timestamp::new(9)).await,
            namespace::soft_delete(&mut repos, "a", Timestamp::new(9))
        );
        assert_eq!(
            sql_namespace_soft_delete(&pool, "nope", Timestamp::new(9)).await,
            namespace::soft_delete(&mut repos, "nope", Timestamp::new(9))
        );
        assert_eq!(
            sql_namespace_create(&pool, "a", None).await,
            namespace::create(&mut repos, "a", None, None)
        );
        assert_eq!(
            sql_namespace_list(&pool).await,
            namespace::list(&repos, iox_catalog::model::SoftDeletedRows::AllRows).unwrap()
        );
    });
}

#[test]
fn tables_agree_with_sqlite() {
    run(async {
        let pool = open_store().await;
        let mut repos = MemCatalog::new();
        let a = sql_namespace_create(&pool, "a", None).await.unwrap().id;
        let b = sql_namespace_create(&pool, "b", None).await.unwrap().id;
        namespace::create(&mut repos, "a", None, None).unwrap();
        namespace::create(&mut repos, "b", None, None).unwrap();
        sql_namespace_update(&pool, sql::NAMESPACE_UPDATE_TABLE_LIMIT, "a", Some(2)).await.unwrap();
        namespace::update_table_limit(&mut repos, "a", 2).unwrap();
        sql_namespace_update(&pool, sql::NAMESPACE_UPDATE_TABLE_LIMIT, "b", Some(0)).await.unwrap();
        namespace::update_table_limit(&mut repos, "b", 0).unwrap();

        for (name, namespace_id) in [
            ("t1", a),
            ("t1", a), // the name is taken, below the limit
            ("t2", a),
            ("t3", a), // the limit is reached
            ("t1", a), // the limit is reached and the name is taken
            ("t1", b), // a limit of none
            ("t1", NamespaceId::new(77)), // no such namespace
        ] {
            assert_eq!(
                sql_table_create(&pool, name, namespace_id).await,
                table::create(&mut repos, name, namespace_id),
                "creating {} in {:?}",
                name,
                namespace_id
            );
        }
        // a limit below the count of tables
        sql_namespace_update(&pool, sql::NAMESPACE_UPDATE_TABLE_LIMIT, "a", Some(-1)).await.unwrap();
        namespace::update_table_limit(&mut repos, "a", -1).unwrap();
        assert_eq!(
            sql_table_create(&pool, "t9", a).await,
            table::create(&mut repos, "t9", a)
        );
        assert_eq!(sql_table_list(&pool).await, table::list(&repos).unwrap());
    });
}

#[test]
fn columns_agree_with_sqlite() {
    run(async {
        let pool = open_store().await;
        let mut repos = MemCatalog::new();
        let ns = sql_namespace_create(&pool, "a", None).await.unwrap().id;
        namespace::create(&mut repos, "a", None, None).unwrap();
        let t = sql_table_create(&pool, "t", ns).await.unwrap().id;
        table::create(&mut repos, "t", ns).unwrap();
        let u = sql_table_create(&pool, "u", ns).await.unwrap().id;
        table::create(&mut repos, "u", ns).unwrap();
        sql_namespace_update(&pool, sql::NAMESPACE_UPDATE_COLUMN_LIMIT, "a", Some(2)).await.unwrap();
        namespace::update_column_limit(&mut repos, "a", 2).unwrap();

        for (name, table_id, column_type) in [
            ("x", t, ColumnType::I64),
            ("x", t, ColumnType::I64),  // again, below the limit
            ("x", t, ColumnType::Tag),  // another type
            ("x", u, ColumnType::Tag),  // another table
            ("y", t, ColumnType::Time), // reaches the limit
            ("z", t, ColumnType::Time), // beyond the limit
            ("x", t, ColumnType::I64),  // exists, but the table is full
            ("x", TableId::new(70), ColumnType::I64), // no such table
        ] {
            agree(
                sql_column_create_or_get(&pool, name, table_id, column_type).await,
                iox_catalog::column::create_or_get(&mut repos, name, table_id, column_type),
                column_shape,
                format!("creating {} in {:?} as {:?}", name, table_id, column_type).as_str(),
            );
        }
        assert_eq!(
            column_shapes(&sql_column_list(&pool).await),
            column_shapes(&iox_catalog::column::list(&repos).unwrap())
        );
    });
}

#[test]
fn column_batches_agree_with_sqlite() {
    run(async {
        let pool = open_store().await;
        let mut repos = MemCatalog::new();
        let ns = sql_namespace_create(&pool, "a", None).await.unwrap().id;
        namespace::create(&mut repos, "a", None, None).unwrap();
        let t = sql_table_create(&pool, "t", ns).await.unwrap().id;
        table::create(&mut repos, "t", ns).unwrap();
        // the batch checks no limit
        sql_namespace_update(&pool, sql::NAMESPACE_UPDATE_COLUMN_LIMIT, "a", Some(1)).await.unwrap();
        namespace::update_column_limit(&mut repos, "a", 1).unwrap();

        let calls: Vec<(TableId, Vec<(&str, ColumnType)>)> = vec![
            (t, vec![("zeta", ColumnType::Tag), ("alpha", ColumnType::I64), ("mid", ColumnType::F64)]),
            (t, vec![("beta", ColumnType::Bool), ("alpha", ColumnType::I64)]),
            (t, vec![
                ("alpha", ColumnType::I64),
                ("beta", ColumnType::String), // conflicts
                ("gamma", ColumnType::Time),
            ]),
            (t, vec![]),
            (TableId::new(60), vec![("alpha", ColumnType::I64)]),
            (TableId::new(60), vec![]),
            (t, vec![("Zeta", ColumnType::U64), ("a", ColumnType::U64), ("\u{e9}", ColumnType::U64)]),
        ];
        for (table_id, entries) in calls {
            let mut batch = ColumnBatch::new();
            for (name, column_type) in &entries {
                batch.insert(name, *column_type);
            }
            let from_store = sql_column_many(&pool, table_id, &batch).await;
            let from_memory =
                iox_catalog::column::create_or_get_many_unchecked(&mut repos, table_id, &batch);
            agree(
                from_store,
                from_memory,
                |rows: &Vec<Column>| rows.iter().map(column_shape).collect::<Vec<_>>(),
                format!("batch {:?} in {:?}", entries, table_id).as_str(),
            );
            assert_eq!(
                column_shapes(&sql_column_list(&pool).await),
                column_shapes(&iox_catalog::column::list(&repos).unwrap())
            );
        }
    });
}

#[test]
fn partitions_agree_with_sqlite() {
    run(async {
        let pool = open_store().await;
        let mut repos = MemCatalog::new();
        let ns = sql_namespace_create(&pool, "a", None).await.unwrap().id;
        namespace::create(&mut repos, "a", None, None).unwrap();
        let t = sql_table_create(&pool, "t", ns).await.unwrap().id;
        table::create(&mut repos, "t", ns).unwrap();

        for (key, table_id) in [("k", t), ("k", t), ("l", t), ("k", TableId::new(9)), ("m", t)] {
            agree(
                sql_partition_create_or_get(&pool, key, table_id).await,
                partition::create_or_get(&mut repos, PartitionKey::new(key), table_id),
                partition_shape,
                format!("partition {} of {:?}", key, table_id).as_str(),
            );
        }
        let id = PartitionId::new(1);
        let a = || Some(vec!["a".to_string()]);
        let calls: Vec<(PartitionId, Option<Vec<String>>, Vec<&str>)> = vec![
            (id, None, vec!["a"]),
            (id, a(), vec!["a", "b"]),
            (id, a(), vec!["a", "c"]), // stale
            (id, None, vec!["a"]),     // stale
            (id, Some(vec!["b".to_string(), "a".to_string()]), vec!["x"]), // other order
            (id, Some(vec!["a".to_string(), "b".to_string()]), vec![]),
            (id, Some(vec![]), vec!["z"]),
            (PartitionId::new(50), None, vec!["a"]), // no such partition
        ];
        for (id, expected, new) in calls {
            assert_eq!(
                sql_cas_sort_key(&pool, id, expected.clone(), &new).await,
                partition::cas_sort_key(&mut repos, id, expected.clone(), &new),
                "swap of {:?} from {:?} to {:?}",
                id,
                expected,
                new
            );
            assert_eq!(
                sql_partition_get_by_id(&pool, id).await,
                partition::get_by_id(&repos, id)
            );
        }
    });
}

#[test]
fn data_files_agree_with_sqlite() {
    run(async {
        let pool = open_store().await;
        let mut repos = MemCatalog::new();
        let ns = sql_namespace_create(&pool, "a", Some(100)).await.unwrap().id;
        namespace::create(&mut repos, "a", None, Some(100)).unwrap();
        let forever = sql_namespace_create(&pool, "b", None).await.unwrap().id;
        namespace::create(&mut repos, "b", None, None).unwrap();
        let t = sql_table_create(&pool, "t", ns).await.unwrap().id;
        table::create(&mut repos, "t", ns).unwrap();
        let p = sql_partition_create_or_get(&pool, "k", t).await.unwrap().id;
        partition::create_or_get(&mut repos, PartitionKey::new("k"), t).unwrap();
        let q = sql_partition_create_or_get(&pool, "l", t).await.unwrap().id;
        partition::create_or_get(&mut repos, PartitionKey::new("l"), t).unwrap();

        let creations = vec![
            params_for(ns, t, p, 1, 100, 899, 1_000),
            params_for(ns, t, p, 2, 200, 900, 2_000),
            params_for(ns, t, p, 1, 300, 5, 3_000), // the content identifier is taken
            params_for(ns, TableId::new(9), p, 3, 1, 5, 3_000), // no such table
            params_for(ns, t, PartitionId::new(9), 3, 1, 5, 3_000), // no such partition
            params_for(NamespaceId::new(9), t, p, 3, 1, 5, 3_000), // no such namespace
            params_for(forever, t, q, 4, 400, 1, 4_000),
            params_for(ns, t, q, 5, 500, 950, 500),
        ];
        for params in creations {
            agree(
                sql_file_create(&pool, params.clone()).await,
                parquet_file::create(&mut repos, params.clone()),
                |file: &ParquetFile| file.clone(),
                format!("creating {:?}", params).as_str(),
            );
        }
        assert_eq!(sql_file_list_all(&pool).await, parquet_file::list_all(&repos).unwrap());
        assert_eq!(sql_partition_get_by_id(&pool, p).await, partition::get_by_id(&repos, p));
        assert_eq!(sql_partition_get_by_id(&pool, q).await, partition::get_by_id(&repos, q));
        for (minimum, maximum) in [(0, None), (500, None), (500, Some(2_000)), (499, Some(2_001))] {
            let minimum = Timestamp::new(minimum);
            let maximum = maximum.map(Timestamp::new);
            assert_eq!(
                sql_partitions_new_file_between(&pool, minimum, maximum).await,
                partition::partitions_new_file_between(&repos, minimum, maximum).unwrap()
            );
        }
        assert_eq!(
            sql_total_size(&pool).await as i128,
            iox_catalog::billing::total_file_size_bytes(&repos, ns)
        );

        // retention: 100 ns before 1000
        assert_eq!(
            sql_file_ids(&pool, sql::PARQUET_FILE_FLAG_BY_RETENTION, Timestamp::new(1_000)).await,
            parquet_file::flag_for_delete_by_retention(&mut repos, Timestamp::new(1_000)).unwrap()
        );
        assert_eq!(sql_file_list_all(&pool).await, parquet_file::list_all(&repos).unwrap());

        // a single flag, on a file that is live, on one that is flagged, on none
        for (id, now) in [(2, 1_500), (1, 1_600), (40, 1_700)] {
            let id = ParquetFileId::new(id);
            let touched = sql_file_flag(&pool, id, Timestamp::new(now)).await.unwrap();
            assert_eq!(touched, repos_touched(&repos, id));
            assert_eq!(parquet_file::flag_for_delete(&mut repos, id, Timestamp::new(now)), Ok(()));
            assert_eq!(sql_file_list_all(&pool).await, parquet_file::list_all(&repos).unwrap());
        }

        assert_eq!(
            sql_update_compaction_level(
                &pool,
                &[ParquetFileId::new(2), ParquetFileId::new(77), ParquetFileId::new(4)],
                CompactionLevel::Final
            )
            .await,
            parquet_file::update_compaction_level(
                &mut repos,
                &[ParquetFileId::new(2), ParquetFileId::new(77), ParquetFileId::new(4)],
                CompactionLevel::Final
            )
            .unwrap()
        );
        assert_eq!(sql_file_list_all(&pool).await, parquet_file::list_all(&repos).unwrap());

        // a purge of what was flagged before 1600
        assert_eq!(
            sql_file_ids(&pool, sql::PARQUET_FILE_DELETE_OLD_IDS_ONLY, Timestamp::new(1_600)).await,
            parquet_file::delete_old_ids_only(&mut repos, Timestamp::new(1_600)).unwrap()
        );
        assert_eq!(sql_file_list_all(&pool).await, parquet_file::list_all(&repos).unwrap());

        // the next file gets the next id
        let params = params_for(ns, t, p, 6, 1, 1, 1);
        assert_eq!(
            sql_file_create(&pool, params.clone()).await,
            parquet_file::create(&mut repos, params)
        );
    });
}

fn repos_touched(repos: &MemCatalog, id: ParquetFileId) -> u64 {
    parquet_file::list_all(repos).unwrap().iter().filter(|f| f.id == id).count() as u64
}

async fn sql_create_upgrade_delete(
    pool: &SqlitePool,
    delete: &[ParquetFileId],
    upgrade: &[ParquetFileId],
    create: &[ParquetFileParams],
    target_level: CompactionLevel,
    now: Timestamp,
) -> Result<Vec<ParquetFileId>, CatalogError> {
    assert!(parquet_file::are_disjoint(delete, upgrade));
    let mut tx = None;
    let (mut transition, mut step) = Transition::start();
    loop {
        let event = match step {
            Step::Begin => match pool.begin().await {
                Ok(begun) => {
                    tx = Some(begun);
                    Event::Begun(Ok(()))
                }
                Err(e) => Event::Begun(Err(iox_catalog::store_error::classify(&e))),
            },
            Step::Retire(id) => {
                let outcome = sqlx::query(sql::PARQUET_FILE_FLAG_FOR_DELETE)
                    .bind(now.get())
                    .bind(id.get())
                    .execute(tx.as_mut().unwrap())
                    .await
                    .map(|done| done.rows_affected());
                Event::Retired(classify_outcome(outcome))
            }
            Step::Promote => {
                let numbers: Vec<String> = upgrade.iter().map(|id| id.get().to_string()).collect();
                let outcome = sqlx::query(sql::PARQUET_FILE_UPDATE_COMPACTION_LEVEL)
                    .bind(target_level.rank())
                    .bind(format!("[{}]", numbers.join(",")))
                    .fetch_all(tx.as_mut().unwrap())
                    .await
                    .map(|rows| {
                        rows.into_iter()
                            .map(|row| ParquetFileId::new(row.get("id")))
                            .collect::<Vec<_>>()
                    });
                Event::Promoted(classify_outcome(outcome))
            }
            Step::Create(at) => {
                let params = &create[at];
                let columns: Vec<String> =
                    params.column_set.to_numbers().iter().map(|n| n.to_string()).collect();
                let outcome = sqlx::query(sql::PARQUET_FILE_CREATE)
                    .bind(sql::TRANSITION_SHARD_ID)
                    .bind(params.table_id.get())
                    .bind(params.partition_id.get())
                    .bind(uuid::Uuid::from_u128(params.object_store_id.get()))
                    .bind(params.min_time.get())
                    .bind(params.max_time.get())
                    .bind(params.file_size_bytes)
                    .bind(params.row_count)
                    .bind(params.compaction_level.rank())
                    .bind(params.created_at.get())
                    .bind(params.namespace_id.get())
                    .bind(format!("[{}]", columns.join(",")))
                    .bind(params.max_l0_created_at.get())
                    .fetch_one(tx.as_mut().unwrap())
                    .await
                    .map(file_of);
                let created =
                    parquet_file::create_result(classify_outcome(outcome), params.object_store_id);
                Event::Created(created.map(|file| file.id))
            }
            Step::Commit => Event::Committed(classify_outcome(tx.take().unwrap().commit().await)),
            Step::Finish(answer) => return answer,
        };
        step = transition.advance(event, delete, upgrade, create.len());
    }
}

#[test]
fn compaction_transitions_agree_with_sqlite() {
    run(async {
        let pool = open_store().await;
        let mut repos = MemCatalog::new();
        let ns = sql_namespace_create(&pool, "a", None).await.unwrap().id;
        namespace::create(&mut repos, "a", None, None).unwrap();
        let t = sql_table_create(&pool, "t", ns).await.unwrap().id;
        table::create(&mut repos, "t", ns).unwrap();
        let p = sql_partition_create_or_get(&pool, "k", t).await.unwrap().id;
        partition::create_or_get(&mut repos, PartitionKey::new("k"), t).unwrap();
        for content in 1..=4 {
            let params = params_for(ns, t, p, content, 10, 5, 100);
            sql_file_create(&pool, params.clone()).await.unwrap();
            parquet_file::create(&mut repos, params).unwrap();
        }
        let id = ParquetFileId::new;
        let transitions: Vec<(Vec<ParquetFileId>, Vec<ParquetFileId>, Vec<ParquetFileParams>)> = vec![
            // takes effect
            (vec![id(1)], vec![id(2)], vec![params_for(ns, t, p, 5, 50, 5, 500)]),
            // the second new file has a content identifier that is taken
            (
                vec![id(2)],
                vec![id(3)],
                vec![params_for(ns, t, p, 6, 60, 5, 600), params_for(ns, t, p, 5, 50, 5, 700)],
            ),
            // a file to delete is missing
            (vec![id(3), id(90)], vec![id(4)], vec![params_for(ns, t, p, 7, 70, 5, 800)]),
            // a file to upgrade is missing
            (vec![id(3)], vec![id(4), id(91)], vec![params_for(ns, t, p, 8, 80, 5, 900)]),
            // nothing to create, and a file that is flagged already
            (vec![id(1), id(3)], vec![id(4), id(2)], vec![]),
            // nothing at all
            (vec![], vec![], vec![]),
            // only new files
            (
                vec![],
                vec![],
                vec![params_for(ns, t, p, 9, 90, 5, 950), params_for(ns, t, p, 10, 100, 5, 960)],
            ),
        ];
        let mut now = 1_000;
        for (delete, upgrade, create) in transitions {
            now += 1;
            let from_store = sql_create_upgrade_delete(
                &pool,
                &delete,
                &upgrade,
                &create,
                CompactionLevel::FileNonOverlapped,
                Timestamp::new(now),
            )
            .await;
            let from_memory = parquet_file::create_upgrade_delete(
                &mut repos,
                &delete,
                &upgrade,
                &create,
                CompactionLevel::FileNonOverlapped,
                Timestamp::new(now),
            );
            assert_eq!(from_store, from_memory, "delete {:?}, upgrade {:?}", delete, upgrade);
            assert_eq!(sql_file_list_all(&pool).await, parquet_file::list_all(&repos).unwrap());
            assert_eq!(sql_partition_get_by_id(&pool, p).await, partition::get_by_id(&repos, p));
            assert_eq!(
                sql_total_size(&pool).await as i128,
                iox_catalog::billing::total_file_size_bytes(&repos, ns)
            );
        }
    });
}

async fn sql_record_skipped(
    pool: &SqlitePool,
    partition_id: PartitionId,
    reason: &str,
    numbers: (usize, usize, usize, u64, u64),
    skipped_at: Timestamp,
) -> Result<(), CatalogError> {
    let outcome = sqlx::query(sql::SKIPPED_COMPACTION_RECORD)
        .bind(partition_id.get())
        .bind(reason)
        .bind(numbers.0 as i64)
        .bind(numbers.1 as i64)
        .bind(numbers.2 as i64)
        .bind(numbers.3 as i64)
        .bind(numbers.4 as i64)
        .bind(skipped_at.get())
        .execute(pool)
        .await
        .map(|_| ());
    partition::record_skipped_compaction_result(classify_outcome(outcome), partition_id)
}

fn skipped_of(row: SqliteRow) -> iox_catalog::rows::SkippedCompaction {
    iox_catalog::rows::SkippedCompaction {
        partition_id: PartitionId::new(row.get("partition_id")),
        reason: row.get("reason"),
        skipped_at: Timestamp::new(row.get("skipped_at")),
        estimated_bytes: row.get::<i64, _>("estimated_bytes") as u64,
        limit_bytes: row.get::<i64, _>("limit_bytes") as u64,
        num_files: row.get::<i64, _>("num_files") as usize,
        limit_num_files: row.get::<i64, _>("limit_num_files") as usize,
        limit_num_files_first_in_partition: row.get::<i64, _>("limit_num_files_first_in_partition")
            as usize,
    }
}

#[test]
fn skipped_compactions_agree_with_sqlite() {
    run(async {
        let pool = open_store().await;
        let mut repos = MemCatalog::new();
        let ns = sql_namespace_create(&pool, "a", None).await.unwrap().id;
        namespace::create(&mut repos, "a", None, None).unwrap();
        let t = sql_table_create(&pool, "t", ns).await.unwrap().id;
        table::create(&mut repos, "t", ns).unwrap();
        for key in ["k", "l"] {
            sql_partition_create_or_get(&pool, key, t).await.unwrap();
            partition::create_or_get(&mut repos, PartitionKey::new(key), t).unwrap();
        }
        let records = [
            (1, "too many files", (10, 5, 7, 1_000, 500), 11),
            (2, "too large", (1, 5, 7, u64::MAX, 500), 12),
            (1, "again", (usize::MAX, 6, 8, 2_000, 600), 13),
            (9, "no such partition", (1, 1, 1, 1, 1), 14),
        ];
        for (partition_id, reason, numbers, at) in records {
            let partition_id = PartitionId::new(partition_id);
            assert_eq!(
                sql_record_skipped(&pool, partition_id, reason, numbers, Timestamp::new(at)).await,
                partition::record_skipped_compaction(
                    &mut repos,
                    partition_id,
                    reason,
                    numbers.0,
                    numbers.1,
                    numbers.2,
                    numbers.3,
                    numbers.4,
                    Timestamp::new(at)
                ),
                "recording {}",
                reason
            );
            let outcome = sqlx::query(sql::SKIPPED_COMPACTION_LIST)
                .fetch_all(&pool)
                .await
                .map(|rows| rows.into_iter().map(skipped_of).collect::<Vec<_>>());
            assert_eq!(
                partition::list_skipped_compactions_result(classify_outcome(outcome)),
                partition::list_skipped_compactions(&repos)
            );
        }
        for partition_id in [1, 1, 9] {
            let partition_id = PartitionId::new(partition_id);
            let outcome = sqlx::query(sql::SKIPPED_COMPACTION_GET)
                .bind(partition_id.get())
                .fetch_one(&pool)
                .await
                .map(skipped_of);
            assert_eq!(
                lookup_result(classify_outcome(outcome)),
                partition::get_in_skipped_compaction(&repos, partition_id)
            );
            let outcome = sqlx::query(sql::SKIPPED_COMPACTION_DELETE)
                .bind(partition_id.get())
                .fetch_optional(&pool)
                .await
                .map(|row| row.map(skipped_of));
            assert_eq!(
                partition::delete_skipped_compactions_result(classify_outcome(outcome)),
                partition::delete_skipped_compactions(&mut repos, partition_id)
            );
        }
    });
}

/// A small generator of numbers: the same numbers in every run.
struct Numbers(u64);

impl Numbers {
    fn next(&mut self) -> u64 {
        self.0 ^= self.0 << 13;
        self.0 ^= self.0 >> 7;
        self.0 ^= self.0 << 17;
        self.0
    }

    fn below(&mut self, n: u64) -> u64 {
        self.next() % n
    }

    fn pick<'a, T>(&mut self, from: &'a [T]) -> &'a T {
        &from[self.below(from.len() as u64) as usize]
    }
}

/// The ids under which the two catalogs know the same partition.
#[derive(Default)]
struct PartitionIds {
    pairs: Vec<(PartitionId, PartitionId)>,
}

impl PartitionIds {
    fn learn(&mut self, store: PartitionId, memory: PartitionId) {
        match self.pairs.iter().find(|(s, _)| *s == store) {
            Some((_, m)) => assert_eq!(*m, memory, "one partition, two ids"),
            None => {
                assert!(self.pairs.iter().all(|(_, m)| *m != memory), "two partitions, one id");
                self.pairs.push((store, memory));
            }
        }
    }

    fn in_memory(&self, store: PartitionId) -> PartitionId {
        self.pairs.iter().find(|(s, _)| *s == store).map(|(_, m)| *m).expect("a known partition")
    }

    /// A pair of ids of one partition, or ids that no partition has.
    fn any(&self, numbers: &mut Numbers) -> (PartitionId, PartitionId) {
        if self.pairs.is_empty() || numbers.below(8) == 0 {
            (PartitionId::new(9_999), PartitionId::new(9_999))
        } else {
            *numbers.pick(&self.pairs)
        }
    }
}

fn file_as_memory_sees_it(mut file: ParquetFile, partitions: &PartitionIds) -> ParquetFile {
    file.partition_id = partitions.in_memory(file.partition_id);
    file
}

async fn sql_partition_list(pool: &SqlitePool) -> Vec<Partition> {
    let mut all = vec![];
    for table_id in 1..8 {
        let outcome = sqlx::query(sql::PARTITION_LIST_BY_TABLE_ID)
            .bind(table_id)
            .fetch_all(pool)
            .await
            .map(|rows| rows.into_iter().map(partition_of).collect::<Vec<_>>());
        all.extend(list_result(classify_outcome(outcome)).unwrap());
    }
    all
}

fn memory_partition_list(repos: &MemCatalog) -> Vec<Partition> {
    let mut all = vec![];
    for table_id in 1..8 {
        all.extend(partition::list_by_table_id(repos, TableId::new(table_id)).unwrap());
    }
    all
}

async fn catalogs_agree(pool: &SqlitePool, repos: &MemCatalog, partitions: &PartitionIds, step: usize) {
    assert_eq!(
        sql_namespace_list(pool).await,
        namespace::list(repos, iox_catalog::model::SoftDeletedRows::AllRows).unwrap(),
        "namespaces after step {}",
        step
    );
    assert_eq!(sql_table_list(pool).await, table::list(repos).unwrap(), "tables after step {}", step);
    assert_eq!(
        column_shapes(&sql_column_list(pool).await),
        column_shapes(&iox_catalog::column::list(repos).unwrap()),
        "columns after step {}",
        step
    );
    // a query that selects the rows of one table yields them in the order that the store
    // finds fit, which is not that of their ids
    let mut in_store: Vec<_> = sql_partition_list(pool)
        .await
        .iter()
        .map(|p| (partitions.in_memory(p.id), partition_shape(p)))
        .collect();
    in_store.sort();
    let mut in_memory: Vec<_> =
        memory_partition_list(repos).iter().map(|p| (p.id, partition_shape(p))).collect();
    in_memory.sort();
    assert_eq!(in_store, in_memory, "partitions after step {}", step);
    let in_store: Vec<_> = sql_file_list_all(pool)
        .await
        .into_iter()
        .map(|f| file_as_memory_sees_it(f, partitions))
        .collect();
    assert_eq!(in_store, parquet_file::list_all(repos).unwrap(), "files after step {}", step);
}

#[test]
fn random_calls_agree_with_sqlite() {
    for seed in [0x2545_f491_4f6c_dd1d, 0x9e37_79b9_7f4a_7c15, 0x0123_4567_89ab_cdef, 42] {
        random_calls(seed);
    }
}

fn random_calls(seed: u64) {
    run(async {
        let pool = open_store().await;
        let mut repos = MemCatalog::new();
        let mut partitions = PartitionIds::default();
        let mut numbers = Numbers(seed);
        let names = ["a", "b", "c", "d"];
        let types = [ColumnType::I64, ColumnType::Tag, ColumnType::Time];
        let levels =
            [CompactionLevel::Initial, CompactionLevel::FileNonOverlapped, CompactionLevel::Final];
        let keys: [Option<Vec<String>>; 4] = [
            None,
            Some(vec![]),
            Some(vec!["a".to_string()]),
            Some(vec!["a".to_string(), "b".to_string()]),
        ];
        let mut now = 1_000i64;

        for step in 0..600 {
            now += numbers.below(50) as i64;
            let name = *numbers.pick(&names);
            let namespace_id = NamespaceId::new(1 + numbers.below(5) as i64);
            let table_id = TableId::new(1 + numbers.below(6) as i64);
            let limit = numbers.below(6) as i64 - 1;
            let retention = if numbers.below(3) == 0 { None } else { Some(numbers.below(400) as i64) };
            match numbers.below(17) {
                0 => assert_eq!(
                    sql_namespace_create(&pool, name, retention).await,
                    namespace::create(&mut repos, name, None, retention)
                ),
                1 => assert_eq!(
                    sql_namespace_update(&pool, sql::NAMESPACE_UPDATE_TABLE_LIMIT, name, Some(limit))
                        .await,
                    namespace::update_table_limit(&mut repos, name, limit as i32)
                ),
                2 => assert_eq!(
                    sql_namespace_update(&pool, sql::NAMESPACE_UPDATE_COLUMN_LIMIT, name, Some(limit))
                        .await,
                    namespace::update_column_limit(&mut repos, name, limit as i32)
                ),
                3 => assert_eq!(
                    sql_namespace_update(&pool, sql::NAMESPACE_UPDATE_RETENTION, name, retention)
                        .await,
                    namespace::update_retention_period(&mut repos, name, retention)
                ),
                4 => assert_eq!(
                    sql_namespace_soft_delete(&pool, name, Timestamp::new(now)).await,
                    namespace::soft_delete(&mut repos, name, Timestamp::new(now))
                ),
                5 | 6 => assert_eq!(
                    sql_table_create(&pool, name, namespace_id).await,
                    table::create(&mut repos, name, namespace_id)
                ),
                7 => {
                    let column_type = *numbers.pick(&types);
                    agree(
                        sql_column_create_or_get(&pool, name, table_id, column_type).await,
                        iox_catalog::column::create_or_get(&mut repos, name, table_id, column_type),
                        column_shape,
                        format!("step {}", step).as_str(),
                    );
                }
                8 => {
                    let mut batch = ColumnBatch::new();
                    for _ in 0..numbers.below(5) {
                        let picked: &str = *numbers.pick(&names[..]);
                        batch.insert(picked, *numbers.pick(&types));
                    }
                    agree(
                        sql_column_many(&pool, table_id, &batch).await,
                        iox_catalog::column::create_or_get_many_unchecked(
                            &mut repos, table_id, &batch,
                        ),
                        |rows: &Vec<Column>| rows.iter().map(column_shape).collect::<Vec<_>>(),
                        format!("step {}", step).as_str(),
                    );
                }
                9 | 10 => {
                    let from_store = sql_partition_create_or_get(&pool, name, table_id).await;
                    let from_memory =
                        partition::create_or_get(&mut repos, PartitionKey::new(name), table_id);
                    if let (Ok(s), Ok(m)) = (&from_store, &from_memory) {
                        partitions.learn(s.id, m.id);
                    }
                    agree(from_store, from_memory, partition_shape, format!("step {}", step).as_str());
                }
                11 => {
                    let (in_store, in_memory) = partitions.any(&mut numbers);
                    let expected = numbers.pick(&keys).clone();
                    let new: Vec<&str> = names[..numbers.below(3) as usize].to_vec();
                    let from_store = sql_cas_sort_key(&pool, in_store, expected.clone(), &new).await;
                    let from_memory = partition::cas_sort_key(&mut repos, in_memory, expected, &new);
                    match (from_store, from_memory) {
                        (Ok(s), Ok(m)) => assert_eq!(partition_shape(&s), partition_shape(&m)),
                        (Err(s), Err(m)) => assert_eq!(s, m),
                        (s, m) => panic!("step {}: {:?} and {:?}", step, s, m),
                    }
                }
                12 | 13 => {
                    let (in_store, in_memory) = partitions.any(&mut numbers);
                    let content = numbers.below(40) as u128;
                    let size = numbers.below(1_000) as i64;
                    let max_time = now - numbers.below(500) as i64;
                    let for_store =
                        params_for(namespace_id, table_id, in_store, content, size, max_time, now);
                    let for_memory =
                        params_for(namespace_id, table_id, in_memory, content, size, max_time, now);
                    agree(
                        sql_file_create(&pool, for_store).await,
                        parquet_file::create(&mut repos, for_memory),
                        |file: &ParquetFile| (file.id, file.object_store_id, file.created_at),
                        format!("step {}", step).as_str(),
                    );
                }
                14 => {
                    let id = ParquetFileId::new(1 + numbers.below(30) as i64);
                    sql_file_flag(&pool, id, Timestamp::new(now)).await.unwrap();
                    parquet_file::flag_for_delete(&mut repos, id, Timestamp::new(now)).unwrap();
                }
                15 => {
                    let statement = if numbers.below(2) == 0 {
                        sql::PARQUET_FILE_FLAG_BY_RETENTION
                    } else {
                        sql::PARQUET_FILE_DELETE_OLD_IDS_ONLY
                    };
                    let time = Timestamp::new(now - numbers.below(300) as i64);
                    let from_memory = if statement == sql::PARQUET_FILE_FLAG_BY_RETENTION {
                        parquet_file::flag_for_delete_by_retention(&mut repos, time)
                    } else {
                        parquet_file::delete_old_ids_only(&mut repos, time)
                    };
                    assert_eq!(sql_file_ids(&pool, statement, time).await, from_memory.unwrap());
                }
                _ => {
                    let mut delete = vec![];
                    let mut upgrade = vec![];
                    for id in 1..30 {
                        match numbers.below(12) {
                            0 => delete.push(ParquetFileId::new(id)),
                            1 => upgrade.push(ParquetFileId::new(id)),
                            _ => {}
                        }
                    }
                    let (in_store, in_memory) = partitions.any(&mut numbers);
                    let mut for_store = vec![];
                    let mut for_memory = vec![];
                    for _ in 0..numbers.below(3) {
                        let content = numbers.below(40) as u128;
                        for_store
                            .push(params_for(namespace_id, table_id, in_store, content, 7, now, now));
                        for_memory
                            .push(params_for(namespace_id, table_id, in_memory, content, 7, now, now));
                    }
                    let level = *numbers.pick(&levels);
                    let time = Timestamp::new(now);
                    if numbers.below(2) == 0 {
                        assert_eq!(
                            sql_update_compaction_level(&pool, &upgrade, level).await,
                            parquet_file::update_compaction_level(&mut repos, &upgrade, level).unwrap()
                        );
                    } else {
                        agree(
                            sql_create_upgrade_delete(&pool, &delete, &upgrade, &for_store, level, time)
                                .await,
                            parquet_file::create_upgrade_delete(
                                &mut repos, &delete, &upgrade, &for_memory, level, time,
                            ),
                            |ids: &Vec<ParquetFileId>| ids.clone(),
                            format!("step {}", step).as_str(),
                        );
                    }
                }
            }
            catalogs_agree(&pool, &repos, &partitions, step).await;
        }
        // the run has exercised the catalog
        assert!(table::list(&repos).unwrap().len() > 3);
        assert!(iox_catalog::column::list(&repos).unwrap().len() > 3);
        assert!(!partitions.pairs.is_empty());
        assert!(repos_touched(&repos, parquet_file::list_all(&repos).unwrap()[0].id) == 1);
    });
}
