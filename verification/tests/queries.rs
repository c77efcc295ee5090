use xdu_view::query::{
    directory_query, literal_of, partitions_query, path_range_query, root_files_query,
    ROOT_PARTITION,
};

#[test]
fn root_partition_name() {
    assert_eq!(ROOT_PARTITION, "__root__");
}

#[test]
fn query_for_root_files() {
    let sql = root_files_query("/i/__root__/*.parquet", "WHERE size > 1");
    assert!(sql.contains("SELECT path, size, atime"));
    assert!(sql.contains("FROM read_parquet('/i/__root__/*.parquet')"));
    assert!(sql.contains("WHERE size > 1"));
}

#[test]
fn query_for_partitions() {
    let sql = partitions_query("/i/*/*.parquet", "", false, "partition ASC");
    assert!(sql.contains("SUM(size) as total_size"));
    assert!(sql.contains("MAX(atime) as latest_atime"));
    assert!(sql.contains("COUNT(*) as file_count"));
    assert!(sql.contains("partition != '__root__'"));
    assert!(sql.contains("ORDER BY partition ASC"));
    assert!(!sql.contains("CASE WHEN"));
}

#[test]
fn query_for_filtered_partitions() {
    let sql = partitions_query("/i/*/*.parquet", "size >= 10", true, "total_size DESC");
    assert!(sql.contains("SUM(CASE WHEN size >= 10 THEN size ELSE 0 END) as total_size"));
    assert!(sql.contains("MAX(CASE WHEN size >= 10 THEN atime ELSE 0 END) as latest_atime"));
    assert!(sql.contains("SUM(CASE WHEN size >= 10 THEN 1 ELSE 0 END) as file_count"));
    assert!(sql.contains("AND SUM(CASE WHEN size >= 10 THEN 1 ELSE 0 END) > 0"));
    assert!(sql.contains("ORDER BY total_size DESC"));
}

#[test]
fn query_for_the_first_and_the_last_path() {
    assert_eq!(
        path_range_query("/i/alice/*.parquet"),
        "SELECT MIN(path), MAX(path) FROM read_parquet('/i/alice/*.parquet')"
    );
}

#[test]
fn query_for_a_directory() {
    let sql = directory_query("/i/a/*.parquet", "/d/é", "", "is_dir DESC, component ASC");
    assert!(sql.contains("starts_with(path, '/d/é/')"));
    assert!(sql.contains("substr(path, 5 + 1)"));
    assert!(sql.contains("ORDER BY is_dir DESC, component ASC"));
    let sql = directory_query("/i/a/*.parquet", "/d", "size > 1", "component");
    assert!(sql.contains("starts_with(path, '/d/') AND size > 1"));
    assert!(sql.contains("substr(path, 3 + 1)"));
}

#[test]
fn whole_queries() {
    assert_eq!(
        root_files_query("g", "WHERE a"),
        "SELECT path, size, atime\nFROM read_parquet('g')\nWHERE a"
    );
    assert_eq!(
        partitions_query("g", "", false, "o"),
        "SELECT\n    regexp_extract(filename, '.*/([^/]+)/[^/]+\\.parquet$', 1) as partition,\n    \
         SUM(size) as total_size,\n    MAX(atime) as latest_atime,\n    COUNT(*) as file_count\n\
         FROM read_parquet('g', filename=true)\nGROUP BY partition\n\
         HAVING partition IS NOT NULL AND partition != '' AND partition != '__root__'\nORDER BY o"
    );
    assert_eq!(
        directory_query("g", "/a", "f", "o"),
        "WITH files AS (\n    SELECT path, size, atime\n    FROM read_parquet('g')\n    \
         WHERE starts_with(path, '/a/') AND f\n),\ncomponents AS (\n    SELECT path, size, atime,\n        \
         CASE\n            WHEN position('/' IN substr(path, 3 + 1)) > 0\n            \
         THEN substr(path, 3 + 1, position('/' IN substr(path, 3 + 1)) - 1)\n            \
         ELSE substr(path, 3 + 1)\n        END as component,\n        \
         CASE\n            WHEN position('/' IN substr(path, 3 + 1)) > 0 THEN true\n            \
         ELSE false\n        END as is_dir\n    FROM files\n)\n\
         SELECT\n    component,\n    bool_or(is_dir) as is_dir,\n    SUM(size) as total_size,\n    \
         COUNT(*) as file_count,\n    MAX(atime) as latest_atime\nFROM components\n\
         WHERE component != '' AND component IS NOT NULL\nGROUP BY component\nORDER BY o"
    );
}

#[test]
fn paths_are_taken_as_they_are() {
    assert_eq!(literal_of(""), "''");
    assert_eq!(literal_of("it's"), "'it''s'");
    assert_eq!(literal_of("''"), "''''''");
    let sql = directory_query("g", "/h/a_b%/it's", "", "o");
    assert!(sql.contains("WHERE starts_with(path, '/h/a_b%/it''s/')\n"));
    assert!(!sql.contains("LIKE"));
}
