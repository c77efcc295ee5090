//! What the queries ask for: the columns in the order in which they are read, of the
//! files that are meant, in the order that was chosen.

use vstd::prelude::*;

use crate::query::{
    below_sql, directory_sql, having_sql, literal, named_partitions, partition_columns,
    partitions_sql, path_range_sql, root_files_sql,
};
use crate::text::decimal;

verus! {

/// A column of a select list: what is computed, and the name that it has.
pub open spec fn column(computed: Seq<char>, name: Seq<char>, end: Seq<char>) -> Seq<char> {
    "    "@ + computed + " as "@ + name + end
}

/// What is computed of the files that pass a filter; of the others nothing is taken.
pub open spec fn of_matching(how: Seq<char>, filter: Seq<char>, what: Seq<char>) -> Seq<char> {
    how + "(CASE WHEN "@ + filter + " THEN "@ + what + " ELSE 0 END)"@
}

/// The total size of a partition, of all its files or of those that pass the filter.
pub open spec fn size_of_files(filter: Seq<char>, active: bool) -> Seq<char> {
    if active {
        of_matching("SUM"@, filter, "size"@)
    } else {
        "SUM(size)"@
    }
}

/// The latest access to a partition, to any of its files or to one that passes the
/// filter.
pub open spec fn access_to_files(filter: Seq<char>, active: bool) -> Seq<char> {
    if active {
        of_matching("MAX"@, filter, "atime"@)
    } else {
        "MAX(atime)"@
    }
}

/// The number of files of a partition, of all or of those that pass the filter.
pub open spec fn number_of_files(filter: Seq<char>, active: bool) -> Seq<char> {
    if active {
        of_matching("SUM"@, filter, "1"@)
    } else {
        "COUNT(*)"@
    }
}

proof fn lemma_matching_column(
    head: Seq<char>,
    how: Seq<char>,
    filter: Seq<char>,
    what: Seq<char>,
    name: Seq<char>,
    end: Seq<char>,
    tail: Seq<char>,
)
    requires
        head == "    "@ + how + "(CASE WHEN "@,
        tail == " THEN "@ + what + " ELSE 0 END)"@ + " as "@ + name + end,
    ensures
        head + filter + tail == column(of_matching(how, filter, what), name, end),
{
    let computed = of_matching(how, filter, what);
    let x = "    "@ + how + "(CASE WHEN "@;
    assert(x + filter + tail =~= column(computed, name, end)) by {
        let y = how + "(CASE WHEN "@ + filter;
        let z = " THEN "@ + what + " ELSE 0 END)"@;
        assert(computed =~= y + z);
        assert(x + filter =~= "    "@ + y);
        assert(tail =~= z + (" as "@ + name + end));
        assert("    "@ + y + (z + (" as "@ + name + end)) =~= "    "@ + (y + z) + " as "@ + name
            + end);
    }
}

/// Whether filters are active or not, the partitions are read with their total size,
/// then their latest access, then their number of files.
pub proof fn law_partition_columns(filter: Seq<char>, active: bool)
    ensures
        partition_columns(filter, active) == column(
            size_of_files(filter, active),
            "total_size"@,
            ",\n"@,
        ) + column(access_to_files(filter, active), "latest_atime"@, ",\n"@) + column(
            number_of_files(filter, active),
            "file_count"@,
            "\n"@,
        ),
{
    reveal_strlit("    ");
    reveal_strlit(" as ");
    reveal_strlit(",\n");
    reveal_strlit("\n");
    reveal_strlit("total_size");
    reveal_strlit("latest_atime");
    reveal_strlit("file_count");
    if active {
        reveal_strlit("SUM");
        reveal_strlit("MAX");
        reveal_strlit("size");
        reveal_strlit("atime");
        reveal_strlit("1");
        reveal_strlit("(CASE WHEN ");
        reveal_strlit(" THEN ");
        reveal_strlit(" ELSE 0 END)");
        reveal_strlit("    SUM(CASE WHEN ");
        reveal_strlit("    MAX(CASE WHEN ");
        reveal_strlit(" THEN size ELSE 0 END) as total_size,\n");
        reveal_strlit(" THEN atime ELSE 0 END) as latest_atime,\n");
        reveal_strlit(" THEN 1 ELSE 0 END) as file_count\n");
        let sum = "    SUM(CASE WHEN "@;
        let max = "    MAX(CASE WHEN "@;
        let a = " THEN size ELSE 0 END) as total_size,\n"@;
        let b = " THEN atime ELSE 0 END) as latest_atime,\n"@;
        let c = " THEN 1 ELSE 0 END) as file_count\n"@;
        assert(sum =~= "    "@ + "SUM"@ + "(CASE WHEN "@);
        assert(max =~= "    "@ + "MAX"@ + "(CASE WHEN "@);
        assert(a =~= " THEN "@ + "size"@ + " ELSE 0 END)"@ + " as "@ + "total_size"@ + ",\n"@);
        assert(b =~= " THEN "@ + "atime"@ + " ELSE 0 END)"@ + " as "@ + "latest_atime"@ + ",\n"@);
        assert(c =~= " THEN "@ + "1"@ + " ELSE 0 END)"@ + " as "@ + "file_count"@ + "\n"@);
        lemma_matching_column(sum, "SUM"@, filter, "size"@, "total_size"@, ",\n"@, a);
        lemma_matching_column(max, "MAX"@, filter, "atime"@, "latest_atime"@, ",\n"@, b);
        lemma_matching_column(sum, "SUM"@, filter, "1"@, "file_count"@, "\n"@, c);
        let x = sum + filter + a;
        let y = max + filter + b;
        let z = sum + filter + c;
        assert(x + max + filter + b =~= x + y);
        assert(x + y + sum + filter + c =~= x + y + z);
    } else {
        reveal_strlit("SUM(size)");
        reveal_strlit("MAX(atime)");
        reveal_strlit("COUNT(*)");
        reveal_strlit(
            "    SUM(size) as total_size,\n    MAX(atime) as latest_atime,\n    COUNT(*) as file_count\n",
        );
        let a = column("SUM(size)"@, "total_size"@, ",\n"@);
        let b = column("MAX(atime)"@, "latest_atime"@, ",\n"@);
        let c = column("COUNT(*)"@, "file_count"@, "\n"@);
        assert(partition_columns(filter, active) =~= a + b + c);
    }
}

/// The partitions are read by the name of the directory of their chunk, then with
/// those columns, one row for each, from the files of the index; in the order that
/// was chosen.
pub proof fn law_partitions_query(
    glob: Seq<char>,
    filter: Seq<char>,
    active: bool,
    order: Seq<char>,
)
    ensures
        partitions_sql(glob, filter, active, order) == "SELECT\n"@ + column(
            "regexp_extract(filename, '.*/([^/]+)/[^/]+\\.parquet$', 1)"@,
            "partition"@,
            ",\n"@,
        ) + (column(size_of_files(filter, active), "total_size"@, ",\n"@) + column(
            access_to_files(filter, active),
            "latest_atime"@,
            ",\n"@,
        ) + column(number_of_files(filter, active), "file_count"@, "\n"@)) + "FROM read_parquet('"@
            + glob + "', filename=true)\nGROUP BY partition\n"@ + listed_partitions(
            filter,
            active,
        ) + "\nORDER BY "@ + order,
{
    law_partition_columns(filter, active);
    lemma_listed_partitions(filter);
    reveal_strlit("SELECT\n");
    reveal_strlit("    ");
    reveal_strlit(" as ");
    reveal_strlit(",\n");
    reveal_strlit("partition");
    reveal_strlit("regexp_extract(filename, '.*/([^/]+)/[^/]+\\.parquet$', 1)");
    reveal_strlit(
        "SELECT\n    regexp_extract(filename, '.*/([^/]+)/[^/]+\\.parquet$', 1) as partition,\n",
    );
    let first = column(
        "regexp_extract(filename, '.*/([^/]+)/[^/]+\\.parquet$', 1)"@,
        "partition"@,
        ",\n"@,
    );
    assert("SELECT\n    regexp_extract(filename, '.*/([^/]+)/[^/]+\\.parquet$', 1) as partition,\n"@
        =~= "SELECT\n"@ + first);
}

/// Which partitions are listed: those with a name that is not the one of the files
/// outside of any, and under a filter only those with a file that passes it.
pub open spec fn listed_partitions(filter: Seq<char>, active: bool) -> Seq<char> {
    let named =
        "HAVING partition IS NOT NULL AND partition != '' AND partition != '__root__'"@;
    if active && filter.len() > 0 {
        named + " AND "@ + number_of_files(filter, true) + " > 0"@
    } else {
        named
    }
}

proof fn lemma_listed_partitions(filter: Seq<char>)
    ensures
        named_partitions() == listed_partitions(filter, false),
        having_sql(filter) == listed_partitions(filter, true),
{
    reveal_strlit("HAVING partition IS NOT NULL AND partition != '' AND partition != '__root__'");
    reveal_strlit("HAVING partition IS NOT NULL AND partition != '' AND partition != '");
    reveal_strlit("__root__");
    reveal_strlit("'");
    assert(named_partitions() =~= listed_partitions(filter, false));
    reveal_strlit(" AND SUM(CASE WHEN ");
    reveal_strlit(" THEN 1 ELSE 0 END) > 0");
    reveal_strlit(" AND ");
    reveal_strlit("SUM");
    reveal_strlit("1");
    reveal_strlit("(CASE WHEN ");
    reveal_strlit(" THEN ");
    reveal_strlit(" ELSE 0 END)");
    reveal_strlit(" > 0");
    let named = named_partitions();
    let a = " AND SUM(CASE WHEN "@;
    let b = " THEN 1 ELSE 0 END) > 0"@;
    assert(a =~= " AND "@ + ("SUM"@ + "(CASE WHEN "@));
    assert(b =~= " THEN "@ + "1"@ + " ELSE 0 END)"@ + " > 0"@);
    if filter.len() > 0 {
        let x = "SUM"@ + "(CASE WHEN "@;
        let y = " THEN "@ + "1"@ + " ELSE 0 END)"@;
        assert(number_of_files(filter, true) =~= x + filter + y);
        assert(named + a + filter + b =~= named + " AND "@ + (x + filter + y) + " > 0"@);
    }
}

/// The first and the last path of a partition are read in that order, from the files
/// of the index.
pub proof fn law_path_range_query(glob: Seq<char>)
    ensures
        path_range_sql(glob) == "SELECT MIN(path), MAX(path) FROM read_parquet('"@ + glob + "')"@,
{
}

/// The files outside of any partition are read by their path, their size and their
/// last access, where the filters let them pass.
pub proof fn law_root_files_query(glob: Seq<char>, where_clause: Seq<char>)
    ensures
        root_files_sql(glob, where_clause) == "SELECT path, size, atime\nFROM read_parquet('"@ + glob
            + "')\n"@ + where_clause,
{
}

/// The files of a directory are those whose path begins with its path and a slash,
/// exactly, and that pass the filter.
pub proof fn law_files_of_directory(path: Seq<char>, filter: Seq<char>)
    ensures
        filter.len() == 0 ==> below_sql(path, filter) == "starts_with(path, "@ + literal(
            path + "/"@,
        ) + ")"@,
        filter.len() > 0 ==> below_sql(path, filter) == "starts_with(path, "@ + literal(path + "/"@)
            + ")"@ + " AND "@ + filter,
{
}

/// What stands in a directory is read by the name behind its path and slash, which
/// are skipped by the number of their characters, up to the next slash; whether a
/// slash follows the name; then the total size, the number of files and the latest
/// access, in that order, one row for each name; in the order that was chosen.
pub proof fn law_directory_query(
    glob: Seq<char>,
    path: Seq<char>,
    filter: Seq<char>,
    order: Seq<char>,
)
    ensures
        ({
            let name = "substr(path, "@ + decimal(path.len() + 1) + " + 1"@;
            let slash = "position('/' IN "@ + name + "))"@;
            directory_sql(glob, path, filter, order)
                == "WITH files AS (\n    SELECT path, size, atime\n    FROM read_parquet('"@ + glob
                + "')\n    WHERE "@ + below_sql(path, filter)
                + "\n),\ncomponents AS (\n    SELECT path, size, atime,\n        CASE\n            WHEN "@
                + slash + " > 0\n            THEN "@ + name + ", "@ + slash
                + " - 1)\n            ELSE "@ + name
                + ")\n        END as component,\n        CASE\n            WHEN "@ + slash
                + " > 0 THEN true\n            ELSE false\n        END as is_dir\n    FROM files\n)\n"@
                + ("SELECT\n    component,\n"@ + column("bool_or(is_dir)"@, "is_dir"@, ",\n"@)
                + column("SUM(size)"@, "total_size"@, ",\n"@) + column(
                "COUNT(*)"@,
                "file_count"@,
                ",\n"@,
            ) + column("MAX(atime)"@, "latest_atime"@, "\n"@))
                + "FROM components\nWHERE component != '' AND component IS NOT NULL\nGROUP BY component\nORDER BY "@
                + order
        }),
{
    reveal_strlit("/");
    assert((path + "/"@).len() == path.len() + 1);
    let name = "substr(path, "@ + decimal(path.len() + 1) + " + 1"@;
    let slash = "position('/' IN "@ + name + "))"@;
    reveal_strlit("position('/' IN ");
    reveal_strlit("))");
    reveal_strlit(" > 0\n            THEN ");
    reveal_strlit(", ");
    reveal_strlit(" - 1)\n            ELSE ");
    reveal_strlit(" > 0 THEN true\n            ELSE false\n        END as is_dir\n    FROM files\n)\n");
    reveal_strlit(
        "\n),\ncomponents AS (\n    SELECT path, size, atime,\n        CASE\n            WHEN ",
    );
    reveal_strlit(
        "\n),\ncomponents AS (\n    SELECT path, size, atime,\n        CASE\n            WHEN position('/' IN ",
    );
    reveal_strlit(")) > 0\n            THEN ");
    reveal_strlit(", position('/' IN ");
    reveal_strlit(")) - 1)\n            ELSE ");
    reveal_strlit(")\n        END as component,\n        CASE\n            WHEN ");
    reveal_strlit(")\n        END as component,\n        CASE\n            WHEN position('/' IN ");
    let a = "\n),\ncomponents AS (\n    SELECT path, size, atime,\n        CASE\n            WHEN "@;
    let b = ")\n        END as component,\n        CASE\n            WHEN "@;
    let p = "position('/' IN "@;
    let q = "))"@;
    assert("\n),\ncomponents AS (\n    SELECT path, size, atime,\n        CASE\n            WHEN position('/' IN "@
        =~= a + p);
    assert(")\n        END as component,\n        CASE\n            WHEN position('/' IN "@ =~= b + p);
    assert(")) > 0\n            THEN "@ =~= q + " > 0\n            THEN "@);
    assert(", position('/' IN "@ =~= ", "@ + p);
    assert(")) - 1)\n            ELSE "@ =~= q + " - 1)\n            ELSE "@);
    let head = "WITH files AS (\n    SELECT path, size, atime\n    FROM read_parquet('"@ + glob
        + "')\n    WHERE "@ + below_sql(path, filter);
    let x1 = " > 0\n            THEN "@;
    let x2 = " - 1)\n            ELSE "@;
    let s1 = head + (a + p) + name + (q + x1) + name + (", "@ + p) + name + (q + x2) + name + (b + p)
        + name;
    let s2 = head + a + slash + x1 + name + ", "@ + slash + x2 + name + b;
    lemma_same_pieces(head, a, p, name, q, x1, x2, b);
    lemma_directory_tail();
    assert(s1 + q =~= s2 + slash);
    let t = " > 0 THEN true\n            ELSE false\n        END as is_dir\n    FROM files\n)\n"@;
    let u = directory_columns();
    let v =
        "FROM components\nWHERE component != '' AND component IS NOT NULL\nGROUP BY component\nORDER BY "@;
    assert(directory_sql(glob, path, filter, order) == s1 + (q + t + u + v) + order);
    assert(s1 + (q + t + u + v) =~= s1 + q + t + u + v);
}

/// The columns that are read of what stands in a directory.
spec fn directory_columns() -> Seq<char> {
    "SELECT\n    component,\n"@ + column("bool_or(is_dir)"@, "is_dir"@, ",\n"@) + column(
        "SUM(size)"@,
        "total_size"@,
        ",\n"@,
    ) + column("COUNT(*)"@, "file_count"@, ",\n"@) + column("MAX(atime)"@, "latest_atime"@, "\n"@)
}

proof fn lemma_same_pieces(
    head: Seq<char>,
    a: Seq<char>,
    p: Seq<char>,
    name: Seq<char>,
    q: Seq<char>,
    x1: Seq<char>,
    x2: Seq<char>,
    b: Seq<char>,
)
    ensures
        head + (a + p) + name + (q + x1) + name + (", "@ + p) + name + (q + x2) + name + (b + p)
            + name + q == head + a + (p + name + q) + x1 + name + ", "@ + (p + name + q) + x2 + name
            + b + (p + name + q),
{
    let k = head + a + (p + name + q);
    assert(head + (a + p) + name + (q + x1) =~= k + x1);
    let l = k + x1 + name;
    assert(l + (", "@ + p) + name + (q + x2) =~= l + ", "@ + (p + name + q) + x2);
    let m = l + ", "@ + (p + name + q) + x2 + name;
    assert(m + (b + p) + name + q =~= m + b + (p + name + q));
}

proof fn lemma_directory_tail()
    ensures
        ")) > 0 THEN true\n            ELSE false\n        END as is_dir\n    FROM files\n)\nSELECT\n    component,\n    bool_or(is_dir) as is_dir,\n    SUM(size) as total_size,\n    COUNT(*) as file_count,\n    MAX(atime) as latest_atime\nFROM components\nWHERE component != '' AND component IS NOT NULL\nGROUP BY component\nORDER BY "@
            == "))"@
            + " > 0 THEN true\n            ELSE false\n        END as is_dir\n    FROM files\n)\n"@
            + directory_columns()
            + "FROM components\nWHERE component != '' AND component IS NOT NULL\nGROUP BY component\nORDER BY "@,
{
    reveal_strlit(
        ")) > 0 THEN true\n            ELSE false\n        END as is_dir\n    FROM files\n)\nSELECT\n    component,\n    bool_or(is_dir) as is_dir,\n    SUM(size) as total_size,\n    COUNT(*) as file_count,\n    MAX(atime) as latest_atime\nFROM components\nWHERE component != '' AND component IS NOT NULL\nGROUP BY component\nORDER BY ",
    );
    reveal_strlit("))");
    reveal_strlit(" > 0 THEN true\n            ELSE false\n        END as is_dir\n    FROM files\n)\n");
    reveal_strlit(
        "FROM components\nWHERE component != '' AND component IS NOT NULL\nGROUP BY component\nORDER BY ",
    );
    reveal_strlit("SELECT\n    component,\n");
    reveal_strlit("    ");
    reveal_strlit(" as ");
    reveal_strlit("bool_or(is_dir)");
    reveal_strlit("is_dir");
    reveal_strlit("SUM(size)");
    reveal_strlit("total_size");
    reveal_strlit("COUNT(*)");
    reveal_strlit("file_count");
    reveal_strlit("MAX(atime)");
    reveal_strlit("latest_atime");
    reveal_strlit(",\n");
    reveal_strlit("\n");
    assert(")) > 0 THEN true\n            ELSE false\n        END as is_dir\n    FROM files\n)\nSELECT\n    component,\n    bool_or(is_dir) as is_dir,\n    SUM(size) as total_size,\n    COUNT(*) as file_count,\n    MAX(atime) as latest_atime\nFROM components\nWHERE component != '' AND component IS NOT NULL\nGROUP BY component\nORDER BY "@
        =~= "))"@
        + " > 0 THEN true\n            ELSE false\n        END as is_dir\n    FROM files\n)\n"@
        + directory_columns()
        + "FROM components\nWHERE component != '' AND component IS NOT NULL\nGROUP BY component\nORDER BY "@);
}

} // verus!
