//! The statements by which the repositories speak to a SQLite store. The parameters of
//! each statement are bound in the order of their numbers.

use vstd::prelude::*;

verus! {

/// Name of the topic that every namespace belongs to.
pub const SHARED_TOPIC_NAME: &'static str = "iox-shared";

/// Id of the topic that every namespace belongs to.
pub const SHARED_TOPIC_ID: i64 = 1;

/// Name of the query pool that every namespace belongs to.
pub const SHARED_QUERY_POOL: &'static str = "iox-shared";

/// Id of the query pool that every namespace belongs to.
pub const SHARED_QUERY_POOL_ID: i64 = 1;

/// Id of the shard that every partition and data file belongs to.
pub const TRANSITION_SHARD_ID: i64 = 1234;

/// Index of the shard that every partition and data file belongs to.
pub const TRANSITION_SHARD_INDEX: i32 = 1234;

/// Makes sure that the shared topic exists. `$1`: its name.
pub const SETUP_TOPIC: &'static str =
    "INSERT INTO topic (name) VALUES ($1) ON CONFLICT (name) DO NOTHING;";

/// Makes sure that the transition shard exists. `$1`: its id, `$2`: the id of the topic,
/// `$3`: the index of the shard.
pub const SETUP_SHARD: &'static str =
    "INSERT INTO shard (id, topic_id, shard_index, min_unpersisted_sequence_number) VALUES ($1, $2, $3, 0) ON CONFLICT (topic_id, shard_index) DO NOTHING;";

/// Makes sure that the shared query pool exists. `$1`: its name.
pub const SETUP_QUERY_POOL: &'static str =
    "INSERT INTO query_pool (name) VALUES ($1) ON CONFLICT (name) DO NOTHING;";

/// Inserts a namespace. `$1`: name, `$2`: topic, `$3`: query pool, `$4`: retention,
/// `$5`: limit of tables, `$6`: partition template.
pub const NAMESPACE_CREATE: &'static str =
    "INSERT INTO namespace ( name, topic_id, query_pool_id, retention_period_ns, max_tables, partition_template ) VALUES ( $1, $2, $3, $4, $5, $6 ) RETURNING id, name, retention_period_ns, max_tables, max_columns_per_table, deleted_at, partition_template;";

/// Selects the namespaces that a predicate over `deleted_at` admits; the predicate
/// follows this text.
pub const NAMESPACE_LIST_WHERE: &'static str =
    "SELECT id, name, retention_period_ns, max_tables, max_columns_per_table, deleted_at, partition_template FROM namespace WHERE ";

/// Selects the namespace of an id, if a predicate over `deleted_at` admits it; the
/// predicate follows this text. `$1`: id.
pub const NAMESPACE_GET_BY_ID_WHERE: &'static str =
    "SELECT id, name, retention_period_ns, max_tables, max_columns_per_table, deleted_at, partition_template FROM namespace WHERE id=$1 AND ";

/// Selects the namespace of a name, if a predicate over `deleted_at` admits it; the
/// predicate follows this text. `$1`: name.
pub const NAMESPACE_GET_BY_NAME_WHERE: &'static str =
    "SELECT id, name, retention_period_ns, max_tables, max_columns_per_table, deleted_at, partition_template FROM namespace WHERE name=$1 AND ";

/// Marks a namespace as deleted. `$1`: time, `$2`: name.
pub const NAMESPACE_SOFT_DELETE: &'static str =
    "UPDATE namespace SET deleted_at=$1 WHERE name = $2;";

/// Sets the limit of tables of a namespace. `$1`: limit, `$2`: name.
pub const NAMESPACE_UPDATE_TABLE_LIMIT: &'static str =
    "UPDATE namespace SET max_tables = $1 WHERE name = $2 RETURNING id, name, retention_period_ns, max_tables, max_columns_per_table, deleted_at, partition_template;";

/// Sets the limit of columns of a namespace. `$1`: limit, `$2`: name.
pub const NAMESPACE_UPDATE_COLUMN_LIMIT: &'static str =
    "UPDATE namespace SET max_columns_per_table = $1 WHERE name = $2 RETURNING id, name, retention_period_ns, max_tables, max_columns_per_table, deleted_at, partition_template;";

/// Sets the retention of a namespace. `$1`: retention, `$2`: name.
pub const NAMESPACE_UPDATE_RETENTION: &'static str =
    "UPDATE namespace SET retention_period_ns = $1 WHERE name = $2 RETURNING id, name, retention_period_ns, max_tables, max_columns_per_table, deleted_at, partition_template;";

/// Inserts a table while its namespace holds fewer tables than it may. The rows to
/// insert come from a query that joins the limit of the namespace with the count of its
/// tables and yields nothing once the limit is reached, so that the check and the insert
/// are one statement. `$1`: name, `$2`: namespace.
pub const TABLE_CREATE: &'static str =
    "INSERT INTO table_name ( name, namespace_id ) SELECT $1, id FROM ( SELECT namespace.id AS id, max_tables, COUNT(table_name.id) AS count FROM namespace LEFT JOIN table_name ON namespace.id = table_name.namespace_id WHERE namespace.id = $2 GROUP BY namespace.max_tables, table_name.namespace_id, namespace.id ) AS get_count WHERE count < max_tables RETURNING *;";

/// Selects the table of an id. `$1`: id.
pub const TABLE_GET_BY_ID: &'static str = "SELECT * FROM table_name WHERE id = $1;";

/// Selects the table of a name in a namespace. `$1`: namespace, `$2`: name.
pub const TABLE_GET_BY_NAMESPACE_AND_NAME: &'static str =
    "SELECT * FROM table_name WHERE namespace_id = $1 AND name = $2;";

/// Selects the tables of a namespace. `$1`: namespace.
pub const TABLE_LIST_BY_NAMESPACE_ID: &'static str =
    "SELECT * FROM table_name WHERE namespace_id = $1;";

/// Selects every table.
pub const TABLE_LIST: &'static str = "SELECT * FROM table_name;";

/// Inserts a column while its table holds fewer columns than its namespace allows, or
/// yields the column that exists. `$1`: name, `$2`: table, `$3`: type.
pub const COLUMN_CREATE_OR_GET: &'static str =
    "INSERT INTO column_name ( name, table_id, column_type ) SELECT $1, table_id, $3 FROM ( SELECT max_columns_per_table, namespace.id, table_name.id as table_id, COUNT(column_name.id) AS count FROM namespace LEFT JOIN table_name ON namespace.id = table_name.namespace_id LEFT JOIN column_name ON table_name.id = column_name.table_id WHERE table_name.id = $2 GROUP BY namespace.max_columns_per_table, namespace.id, table_name.id ) AS get_count WHERE count < max_columns_per_table ON CONFLICT (table_id, name) DO UPDATE SET name = column_name.name RETURNING *;";

/// Selects the columns of the tables of a namespace. `$1`: namespace.
pub const COLUMN_LIST_BY_NAMESPACE_ID: &'static str =
    "SELECT column_name.* FROM table_name INNER JOIN column_name on column_name.table_id = table_name.id WHERE table_name.namespace_id = $1;";

/// Selects the columns of a table. `$1`: table.
pub const COLUMN_LIST_BY_TABLE_ID: &'static str = "SELECT * FROM column_name WHERE table_id = $1;";

/// Selects every column.
pub const COLUMN_LIST: &'static str = "SELECT * FROM column_name;";

/// Inserts the columns of a batch, or yields those that exist. The rows are ordered by
/// name before they are written, so that two batches that overlap take their rows in the
/// same order. `$1`: table, `$2`: the batch as a list of objects with `name` and
/// `column_type`.
pub const COLUMN_CREATE_OR_GET_MANY: &'static str =
    "INSERT INTO column_name ( name, table_id, column_type ) SELECT a.value ->> 'name' AS name, $1, a.value ->> 'column_type' AS column_type FROM json_each($2) as a ORDER BY name ON CONFLICT (table_id, name) DO UPDATE SET name = column_name.name RETURNING *;";

/// Inserts a partition with an empty sort key, or yields the one that exists. `$1`: key,
/// `$2`: shard, `$3`: table.
pub const PARTITION_CREATE_OR_GET: &'static str =
    "INSERT INTO partition ( partition_key, shard_id, table_id, sort_key) VALUES ( $1, $2, $3, '[]') ON CONFLICT (table_id, partition_key) DO UPDATE SET partition_key = partition.partition_key RETURNING id, table_id, partition_key, sort_key, new_file_at;";

/// Selects the partition of an id. `$1`: id.
pub const PARTITION_GET_BY_ID: &'static str =
    "SELECT id, table_id, partition_key, sort_key, new_file_at FROM partition WHERE id = $1;";

/// Selects the partitions of a table. `$1`: table.
pub const PARTITION_LIST_BY_TABLE_ID: &'static str =
    "SELECT id, table_id, partition_key, sort_key, new_file_at FROM partition WHERE table_id = $1;";

/// Selects the ids of all partitions.
pub const PARTITION_LIST_IDS: &'static str = "SELECT p.id as partition_id FROM partition p";

/// Sets the sort key of a partition on the condition that it is the expected one.
/// `$1`: new sort key, `$2`: id, `$3`: expected sort key.
pub const PARTITION_CAS_SORT_KEY: &'static str =
    "UPDATE partition SET sort_key = $1 WHERE id = $2 AND sort_key = $3 RETURNING id, table_id, partition_key, sort_key, new_file_at;";

/// Records a skipped compaction, in place of the record that its partition has. `$1`:
/// partition, `$2`: reason, `$3`: number of files, `$4` and `$5`: limits of the number of
/// files, `$6`: estimated bytes, `$7`: limit of bytes, `$8`: time.
pub const SKIPPED_COMPACTION_RECORD: &'static str =
    "INSERT INTO skipped_compactions ( partition_id, reason, num_files, limit_num_files, limit_num_files_first_in_partition, estimated_bytes, limit_bytes, skipped_at ) VALUES ( $1, $2, $3, $4, $5, $6, $7, $8 ) ON CONFLICT ( partition_id ) DO UPDATE SET reason = EXCLUDED.reason, num_files = EXCLUDED.num_files, limit_num_files = EXCLUDED.limit_num_files, limit_num_files_first_in_partition = EXCLUDED.limit_num_files_first_in_partition, estimated_bytes = EXCLUDED.estimated_bytes, limit_bytes = EXCLUDED.limit_bytes, skipped_at = EXCLUDED.skipped_at;";

/// Selects the skipped compaction of a partition. `$1`: partition.
pub const SKIPPED_COMPACTION_GET: &'static str =
    "SELECT * FROM skipped_compactions WHERE partition_id = $1;";

/// Selects every skipped compaction.
pub const SKIPPED_COMPACTION_LIST: &'static str = "SELECT * FROM skipped_compactions";

/// Deletes the skipped compaction of a partition and yields it. `$1`: partition.
pub const SKIPPED_COMPACTION_DELETE: &'static str =
    "DELETE FROM skipped_compactions WHERE partition_id = $1 RETURNING *";

/// Selects the partitions of the highest ids, highest first. `$1`: how many.
pub const PARTITION_MOST_RECENT_N: &'static str =
    "SELECT id, table_id, partition_key, sort_key, new_file_at FROM partition ORDER BY id DESC LIMIT $1;";

/// Selects the ids of the partitions in which a file arrived after a time. `$1`: the
/// time; a second parameter may be bound and is not read.
pub const PARTITION_NEW_FILE_SINCE: &'static str =
    "SELECT p.id as partition_id FROM partition p WHERE p.new_file_at > $1";

/// Selects the ids of the partitions in which a file arrived after a time and before
/// another. `$1`: the earlier time, `$2`: the later time.
pub const PARTITION_NEW_FILE_BETWEEN: &'static str =
    "SELECT p.id as partition_id FROM partition p WHERE p.new_file_at > $1 AND p.new_file_at < $2";

/// Inserts a data file. `$1`: shard, `$2`: table, `$3`: partition, `$4`: content
/// identifier, `$5` and `$6`: earliest and latest time, `$7`: size, `$8`: rows, `$9`:
/// level, `$10`: time of creation, `$11`: namespace, `$12`: columns, `$13`: time of
/// creation of the latest file of the initial level.
pub const PARQUET_FILE_CREATE: &'static str =
    "INSERT INTO parquet_file ( shard_id, table_id, partition_id, object_store_id, min_time, max_time, file_size_bytes, row_count, compaction_level, created_at, namespace_id, column_set, max_l0_created_at ) VALUES ( $1, $2, $3, $4, $5, $6, $7, $8, $9, $10, $11, $12, $13 ) RETURNING id, table_id, partition_id, object_store_id, min_time, max_time, to_delete, file_size_bytes, row_count, compaction_level, created_at, namespace_id, column_set, max_l0_created_at;";

/// Selects every data file.
pub const PARQUET_FILE_LIST_ALL: &'static str =
    "SELECT parquet_file.id, parquet_file.namespace_id, parquet_file.table_id, parquet_file.partition_id, parquet_file.object_store_id, parquet_file.min_time, parquet_file.max_time, parquet_file.to_delete, parquet_file.file_size_bytes, parquet_file.row_count, parquet_file.compaction_level, parquet_file.created_at, parquet_file.column_set, parquet_file.max_l0_created_at FROM parquet_file;";

/// Marks a data file as deleted. `$1`: time, `$2`: id.
pub const PARQUET_FILE_FLAG_FOR_DELETE: &'static str =
    "UPDATE parquet_file SET to_delete = $1 WHERE id = $2;";

/// Marks the data files past the retention of their namespace as deleted, no more than a
/// given number of them, and yields their ids. `$1`: time, `$2`: how many at most.
pub const PARQUET_FILE_FLAG_BY_RETENTION: &'static str =
    "WITH parquet_file_ids as ( SELECT parquet_file.id FROM namespace, parquet_file WHERE namespace.retention_period_ns IS NOT NULL AND parquet_file.to_delete IS NULL AND parquet_file.max_time < $1 - namespace.retention_period_ns AND namespace.id = parquet_file.namespace_id LIMIT $2 ) UPDATE parquet_file SET to_delete = $1 WHERE id IN (SELECT id FROM parquet_file_ids) RETURNING id;";

/// Selects the data files of the tables of a namespace that are not marked for deletion.
/// `$1`: namespace.
pub const PARQUET_FILE_LIST_BY_NAMESPACE_NOT_TO_DELETE: &'static str =
    "SELECT parquet_file.id, parquet_file.namespace_id, parquet_file.table_id, parquet_file.partition_id, parquet_file.object_store_id, parquet_file.min_time, parquet_file.max_time, parquet_file.to_delete, parquet_file.file_size_bytes, parquet_file.row_count, parquet_file.compaction_level, parquet_file.created_at, parquet_file.column_set, parquet_file.max_l0_created_at FROM parquet_file INNER JOIN table_name on table_name.id = parquet_file.table_id WHERE table_name.namespace_id = $1 AND parquet_file.to_delete IS NULL;";

/// Selects the data files of a table that are not marked for deletion. `$1`: table.
pub const PARQUET_FILE_LIST_BY_TABLE_NOT_TO_DELETE: &'static str =
    "SELECT id, namespace_id, table_id, partition_id, object_store_id, min_time, max_time, to_delete, file_size_bytes, row_count, compaction_level, created_at, column_set, max_l0_created_at FROM parquet_file WHERE table_id = $1 AND to_delete IS NULL;";

/// Removes the data files that were marked for deletion before a time, no more than a
/// given number of them, and yields their ids. `$1`: time, `$2`: how many at most.
pub const PARQUET_FILE_DELETE_OLD_IDS_ONLY: &'static str =
    "WITH parquet_file_ids as ( SELECT id FROM parquet_file WHERE to_delete < $1 LIMIT $2 ) DELETE FROM parquet_file WHERE id IN (SELECT id FROM parquet_file_ids) RETURNING id;";

/// Selects the data files of a partition that are not marked for deletion. `$1`:
/// partition.
pub const PARQUET_FILE_LIST_BY_PARTITION_NOT_TO_DELETE: &'static str =
    "SELECT id, namespace_id, table_id, partition_id, object_store_id, min_time, max_time, to_delete, file_size_bytes, row_count, compaction_level, created_at, column_set, max_l0_created_at FROM parquet_file WHERE parquet_file.partition_id = $1 AND parquet_file.to_delete IS NULL;";

/// Selects the data file of a content identifier. `$1`: content identifier.
pub const PARQUET_FILE_GET_BY_OBJECT_STORE_ID: &'static str =
    "SELECT id, namespace_id, table_id, partition_id, object_store_id, min_time, max_time, to_delete, file_size_bytes, row_count, compaction_level, created_at, column_set, max_l0_created_at FROM parquet_file WHERE object_store_id = $1;";

/// Sets the level of the data files of the given ids and yields the ids of the files
/// that it changed. `$1`: level, `$2`: the ids as a list.
pub const PARQUET_FILE_UPDATE_COMPACTION_LEVEL: &'static str =
    "UPDATE parquet_file SET compaction_level = $1 WHERE id IN (SELECT value FROM json_each($2)) RETURNING id;";

/// Selects the live size of all data files.
pub const BILLING_SUMMARY_TOTAL: &'static str =
    "SELECT total_file_size_bytes FROM billing_summary;";

} // verus!
